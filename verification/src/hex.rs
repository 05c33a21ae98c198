//! Hexadecimal text for bytes, as the trailer lines carry field values.
use crate::text::chars_of;
use vstd::prelude::*;

verus! {

/// The value of a hexadecimal digit of either case.
pub open spec fn hex_value(c: char) -> Option<int> {
    if '0' <= c && c <= '9' {
        Some(c as int - '0' as int)
    } else if 'a' <= c && c <= 'f' {
        Some(c as int - 'a' as int + 10)
    } else if 'A' <= c && c <= 'F' {
        Some(c as int - 'A' as int + 10)
    } else {
        None
    }
}

/// The lower-case digit for a value below sixteen.
pub open spec fn hex_digit(v: int) -> char {
    if v < 10 {
        ('0' as int + v) as char
    } else {
        ('a' as int + v - 10) as char
    }
}

/// Two lower-case digits per byte, the high one first.
pub open spec fn hex_text(bytes: Seq<u8>) -> Seq<char> {
    Seq::new(
        2 * bytes.len(),
        |i: int|
            if i % 2 == 0 {
                hex_digit(bytes[i / 2] as int / 16)
            } else {
                hex_digit(bytes[i / 2] as int % 16)
            },
    )
}

/// The bytes that a text of hexadecimal digits stands for: nothing where the
/// length is odd or a character is no digit.
pub open spec fn hex_bytes(s: Seq<char>) -> Option<Seq<u8>> {
    if s.len() % 2 == 0 && forall|i: int| 0 <= i < s.len() ==> hex_value(#[trigger] s[i]) is Some {
        Some(
            Seq::new(
                s.len() / 2,
                |i: int| (hex_value(s[2 * i])->0 * 16 + hex_value(s[2 * i + 1])->0) as u8,
            ),
        )
    } else {
        None
    }
}

/// The value of one hexadecimal digit.
pub(crate) fn digit_value(c: char) -> (v: Option<u8>)
    ensures
        match v {
            Some(n) => hex_value(c) == Some(n as int) && n < 16,
            None => hex_value(c) is None,
        },
{
    if '0' <= c && c <= '9' {
        Some((c as u8) - 48)
    } else if 'a' <= c && c <= 'f' {
        Some((c as u8) - 97 + 10)
    } else if 'A' <= c && c <= 'F' {
        Some((c as u8) - 65 + 10)
    } else {
        None
    }
}

/// The lower-case digit for a value.
fn digit(v: u8) -> (c: char)
    requires
        v < 16,
    ensures
        c == hex_digit(v as int),
{
    if v < 10 {
        (48 + v) as char
    } else {
        (97 + (v - 10)) as char
    }
}

/// Encodes bytes as lower-case hexadecimal, the inverse of [`hex_decode`].
pub fn hex_encode(bytes: &[u8]) -> (out: String)
    ensures
        out@ == hex_text(bytes@),
{
    let mut out = String::new();
    let mut i: usize = 0;
    while i < bytes.len()
        invariant
            i <= bytes.len(),
            out@ == hex_text(bytes@).take(2 * i),
        decreases bytes.len() - i,
    {
        let b: u8 = bytes[i];
        out.push(digit(b / 16));
        out.push(digit(b % 16));
        proof {
            let t = hex_text(bytes@);
            assert((2 * i) / 2 == i && (2 * i) % 2 == 0);
            assert((2 * i + 1) / 2 == i && (2 * i + 1) % 2 == 1);
            assert(t.take(2 * (i + 1)) =~= t.take(2 * i as int).push(t[2 * i as int]).push(
                t[2 * i + 1],
            ));
        }
        i += 1;
    }
    assert(hex_text(bytes@).take(2 * bytes@.len() as int) =~= hex_text(bytes@));
    out
}

/// Decodes hexadecimal text of either case; `None` on an odd length or a
/// character that is no digit.
pub fn hex_decode(s: &str) -> (out: Option<Vec<u8>>)
    ensures
        match out {
            Some(bytes) => hex_bytes(s@) == Some(bytes@),
            None => hex_bytes(s@) is None,
        },
{
    let chars = chars_of(s);
    if chars.len() % 2 != 0 {
        return None;
    }
    let mut out: Vec<u8> = Vec::new();
    let mut i: usize = 0;
    while i < chars.len()
        invariant
            chars@ == s@,
            chars@.len() % 2 == 0,
            i <= chars@.len(),
            i % 2 == 0,
            forall|j: int| 0 <= j < i ==> hex_value(#[trigger] s@[j]) is Some,
            out@.len() == i / 2,
            forall|j: int|
                0 <= j < i / 2 ==> #[trigger] out@[j] == (hex_value(s@[2 * j])->0 * 16 + hex_value(
                    s@[2 * j + 1],
                )->0) as u8,
        decreases chars.len() - i,
    {
        let hi = match digit_value(chars[i]) {
            Some(v) => v,
            None => {
                assert(hex_value(s@[i as int]) is None);
                return None;
            },
        };
        let lo = match digit_value(chars[i + 1]) {
            Some(v) => v,
            None => {
                assert(hex_value(s@[i + 1]) is None);
                return None;
            },
        };
        out.push(hi * 16 + lo);
        i += 2;
    }
    assert(out@ =~= hex_bytes(s@)->0);
    Some(out)
}

/// Decoding what was encoded gives the bytes back, whatever they hold.
pub proof fn law_hex_round_trip(bytes: Seq<u8>)
    ensures
        hex_bytes(hex_text(bytes)) == Some(bytes),
{
    let t = hex_text(bytes);
    assert forall|i: int| 0 <= i < t.len() implies hex_value(#[trigger] t[i]) is Some by {
        let b = bytes[i / 2] as int;
        assert(0 <= b / 16 < 16 && 0 <= b % 16 < 16);
    }
    assert forall|i: int| 0 <= i < bytes.len() implies (hex_bytes(t)->0)[i] == bytes[i] by {
        let b = bytes[i] as int;
        assert((2 * i) / 2 == i && (2 * i) % 2 == 0);
        assert((2 * i + 1) / 2 == i && (2 * i + 1) % 2 == 1);
        assert(0 <= b / 16 < 16 && 0 <= b % 16 < 16);
        assert(hex_value(t[2 * i]) == Some(b / 16));
        assert(hex_value(t[2 * i + 1]) == Some(b % 16));
        assert(b / 16 * 16 + b % 16 == b);
    }
    assert(hex_bytes(t)->0 =~= bytes);
}

/// Encoded text holds hexadecimal digits and nothing else, so it survives any
/// framing that delimits with other characters.
pub proof fn law_hex_text_is_digits(bytes: Seq<u8>)
    ensures
        forall|i: int|
            0 <= i < hex_text(bytes).len() ==> hex_value(#[trigger] hex_text(bytes)[i]) is Some,
{
    assert forall|i: int| 0 <= i < hex_text(bytes).len() implies hex_value(
        #[trigger] hex_text(bytes)[i],
    ) is Some by {
        let b = bytes[i / 2] as int;
        assert(0 <= b / 16 < 16 && 0 <= b % 16 < 16);
    }
}

/// Each byte is two lower-case digits, the high one first, and the bytes keep
/// their order.
pub proof fn law_hex_is_written_byte_by_byte(bytes: Seq<u8>, b: u8)
    ensures
        hex_text(seq![]) == Seq::<char>::empty(),
        hex_text(bytes.push(b)) == hex_text(bytes).push("0123456789abcdef"@[b as int / 16]).push(
            "0123456789abcdef"@[b as int % 16],
        ),
{
    reveal_strlit("0123456789abcdef");
    let all = bytes.push(b);
    let want = hex_text(bytes).push("0123456789abcdef"@[b as int / 16]).push(
        "0123456789abcdef"@[b as int % 16],
    );
    assert(hex_text(seq![]) =~= Seq::<char>::empty());
    assert forall|i: int| 0 <= i < hex_text(all).len() implies hex_text(all)[i] == want[i] by {
        if i < 2 * bytes.len() {
            assert(i / 2 < bytes.len());
            assert(all[i / 2] == bytes[i / 2]);
        } else {
            assert(i / 2 == bytes.len());
        }
    }
    assert(hex_text(all) =~= want);
}

/// A text decodes exactly where its length is even and each character is a digit
/// of either case.
pub proof fn law_only_hex_text_is_decoded(s: Seq<char>)
    ensures
        hex_bytes(s) is Some <==> s.len() % 2 == 0 && (forall|i: int|
            0 <= i < s.len() ==> ('0' <= #[trigger] s[i] <= '9' || 'a' <= s[i] <= 'f' || 'A' <= s[i]
                <= 'F')),
        hex_bytes(s) matches Some(bytes) ==> bytes.len() == s.len() / 2,
{
    if hex_bytes(s) is Some {
        assert forall|i: int| 0 <= i < s.len() implies ('0' <= #[trigger] s[i] <= '9' || 'a' <= s[i]
            <= 'f' || 'A' <= s[i] <= 'F') by {
            assert(hex_value(s[i]) is Some);
        }
    }
}

/// Capital digits decode as small ones do.
pub proof fn law_hex_ignores_case(s: Seq<char>)
    ensures
        hex_bytes(crate::text::lower(s)) == hex_bytes(s),
{
    let t = crate::text::lower(s);
    assert forall|i: int| 0 <= i < s.len() implies hex_value(#[trigger] t[i]) == hex_value(s[i]) by {
        assert(t[i] == crate::text::lower_char(s[i]));
    }
    assert forall|i: int| 0 <= i < s.len() implies hex_value(#[trigger] s[i]) == hex_value(t[i]) by {
        assert(t[i] == crate::text::lower_char(s[i]));
    }
    if hex_bytes(s) is Some {
        assert(hex_bytes(t)->0 =~= hex_bytes(s)->0);
    }
}

/// What is encoded decodes to the same bytes, call for call.
pub proof fn law_hex_calls_undo_each_other(
    bytes: &[u8],
    text: String,
    again: &str,
    back: Option<Vec<u8>>,
)
    requires
        call_ensures(hex_encode, (bytes,), text),
        again@ == text@,
        call_ensures(hex_decode, (again,), back),
    ensures
        text@ == hex_text(bytes@),
        back matches Some(b) && b@ == bytes@,
{
    law_hex_round_trip(bytes@);
}

} // verus!
