use hellohq_wasm_runtime::digits::{decimal_text, parse_u16};
use hellohq_wasm_runtime::hex::{hex_decode, hex_encode};
use hellohq_wasm_runtime::plugin_host_bytes::{b64_decode, b64_encode};
use hellohq_wasm_runtime::text::{
    chars_of, eq_ignoring_case, split_chars, split_once_chars, str_eq, text_of, trim_chars,
    trim_start_chars,
};

#[test]
fn known_vectors() {
    for (raw, b64) in [
        (&b""[..], ""),
        (b"f", "Zg=="),
        (b"fo", "Zm8="),
        (b"foo", "Zm9v"),
        (b"foob", "Zm9vYg=="),
        (b"fooba", "Zm9vYmE="),
        (b"foobar", "Zm9vYmFy"),
        (b"hello", "aGVsbG8="),
    ] {
        assert_eq!(b64_encode(raw), b64, "encode {raw:?}");
        assert_eq!(b64_decode(b64).as_deref(), Some(raw), "decode {b64}");
    }
}

#[test]
fn round_trips_arbitrary_bytes() {
    let data: Vec<u8> = (0u8..=255).collect();
    assert_eq!(b64_decode(&b64_encode(&data)).as_deref(), Some(&data[..]));
    // A non-UTF-8 payload survives (binary-safe).
    let bin = vec![0u8, 255, 1, 254, 0];
    assert_eq!(b64_decode(&b64_encode(&bin)).as_deref(), Some(&bin[..]));
}

#[test]
fn rejects_invalid() {
    assert_eq!(b64_decode("@@@@"), None);
    assert_eq!(b64_decode("A"), None); // truncated quantum
}

#[test]
fn base64_padding_and_white_space_are_passed_over() {
    assert_eq!(b64_decode("Zm9vYg"), Some(b"foob".to_vec()));
    assert_eq!(b64_decode("Zm 9v\r\nYg\t=\u{c}="), Some(b"foob".to_vec()));
    // A vertical tab and a non-ASCII space are no white space here.
    assert_eq!(b64_decode("Zm9v\u{b}"), None);
    assert_eq!(b64_decode("Zm9v\u{a0}"), None);
    assert_eq!(b64_decode("Zm9vYmFyé"), None);
    assert_eq!(b64_decode("===="), Some(vec![]));
    assert_eq!(b64_decode("+/+/"), Some(vec![0xfb, 0xff, 0xbf]));
}

#[test]
fn hex_encode_roundtrips_with_decode() {
    assert_eq!(hex_encode(&[0x00, 0xff]), "00ff");
    assert_eq!(hex_encode(b""), "");
    // Round-trip: encode then decode is the identity (binary-safe).
    let bytes = b"a;b=c".to_vec();
    assert_eq!(hex_decode(&hex_encode(&bytes)), Some(bytes));
}

#[test]
fn hex_decodes_either_case_and_nothing_else() {
    assert_eq!(hex_decode("aF0A"), Some(vec![0xaf, 0x0a]));
    assert_eq!(hex_decode("abc"), None);
    assert_eq!(hex_decode("0g"), None);
    assert_eq!(hex_decode("éé"), None);
    let all: Vec<u8> = (0u8..=255).collect();
    assert_eq!(hex_decode(&hex_encode(&all)), Some(all));
}

#[test]
fn decimal_numbers_round_trip() {
    assert_eq!(decimal_text(0), "0");
    assert_eq!(decimal_text(10), "10");
    assert_eq!(decimal_text(u64::MAX), "18446744073709551615");
    for n in [0u16, 7, 200, 404, 65535] {
        let text = decimal_text(n as u64);
        assert_eq!(parse_u16(&chars_of(&text)), Some(n));
    }
}

#[test]
fn decimal_u16_accepts_a_sign_and_refuses_the_rest() {
    let read = |s: &str| parse_u16(&chars_of(s));
    assert_eq!(read("+200"), Some(200));
    assert_eq!(read("00200"), Some(200));
    assert_eq!(read("65536"), None);
    assert_eq!(read("99999999999999999999"), None);
    assert_eq!(read(""), None);
    assert_eq!(read("+"), None);
    assert_eq!(read("-0"), None);
    assert_eq!(read("20x"), None);
    assert_eq!(read("2 0"), None);
}

#[test]
fn text_helpers_cut_and_trim() {
    let texts = |v: Vec<Vec<char>>| -> Vec<String> { v.iter().map(|p| text_of(p)).collect() };
    assert_eq!(texts(split_chars(&chars_of("a;b;;c"), ';')), ["a", "b", "", "c"]);
    assert_eq!(texts(split_chars(&chars_of(""), ';')), [""]);
    assert_eq!(texts(split_chars(&chars_of("x;"), ';')), ["x", ""]);
    let (a, b) = split_once_chars(&chars_of("k=v=w"), '=').unwrap();
    assert_eq!((text_of(&a), text_of(&b)), ("k".to_string(), "v=w".to_string()));
    assert!(split_once_chars(&chars_of("kv"), '=').is_none());
    assert_eq!(text_of(&trim_chars(&chars_of(" \u{2003}a b\r\n"))), "a b");
    assert_eq!(text_of(&trim_start_chars(&chars_of("\t x "))), "x ");
    assert_eq!(text_of(&trim_chars(&chars_of("\u{3000}"))), "");
    assert!(eq_ignoring_case("HTTPS", "https"));
    assert!(!eq_ignoring_case("É", "é"));
    assert!(str_eq("é", "é") && !str_eq("a", "ab"));
}
