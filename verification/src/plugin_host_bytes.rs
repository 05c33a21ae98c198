//! Base64 (RFC 4648, standard alphabet, padded) for the typed-host byte bridge.
//!
//! The typed `storage` and `events` values are bytes, while the application's
//! plugin storage is string-based. Carrying bytes as a base64 string over the
//! JSON host-call wire keeps that storage unchanged and binary-safe.
use crate::text::chars_of;
use vstd::prelude::*;

verus! {

/// The symbol of the standard alphabet for a six-bit value.
pub open spec fn b64_symbol(v: int) -> char {
    if v < 26 {
        ('A' as int + v) as char
    } else if v < 52 {
        ('a' as int + v - 26) as char
    } else if v < 62 {
        ('0' as int + v - 52) as char
    } else if v == 62 {
        '+'
    } else {
        '/'
    }
}

/// The six-bit value of a symbol of the standard alphabet.
pub open spec fn b64_value(c: char) -> Option<int> {
    if 'A' <= c && c <= 'Z' {
        Some(c as int - 'A' as int)
    } else if 'a' <= c && c <= 'z' {
        Some(c as int - 'a' as int + 26)
    } else if '0' <= c && c <= '9' {
        Some(c as int - '0' as int + 52)
    } else if c == '+' {
        Some(62)
    } else if c == '/' {
        Some(63)
    } else {
        None
    }
}

/// The padded encoding: four symbols for each three bytes, the last group
/// filled up with `=`.
pub open spec fn b64_text(bytes: Seq<u8>) -> Seq<char>
    decreases bytes.len(),
{
    if bytes.len() == 0 {
        seq![]
    } else {
        let b0 = bytes[0] as int;
        let b1 = if bytes.len() > 1 {
            bytes[1] as int
        } else {
            0
        };
        let b2 = if bytes.len() > 2 {
            bytes[2] as int
        } else {
            0
        };
        seq![
            b64_symbol(b0 / 4),
            b64_symbol(b0 % 4 * 16 + b1 / 16),
            if bytes.len() > 1 {
                b64_symbol(b1 % 16 * 4 + b2 / 64)
            } else {
                '='
            },
            if bytes.len() > 2 {
                b64_symbol(b2 % 64)
            } else {
                '='
            },
        ] + (if bytes.len() > 3 {
            b64_text(bytes.skip(3))
        } else {
            seq![]
        })
    }
}

/// Whether a character takes part in decoding: padding and ASCII white space
/// are passed over.
pub open spec fn b64_counts(c: char) -> bool {
    c != '=' && c != ' ' && c != '\t' && c != '\n' && c != '\r' && c as u32 != 0xc
}

/// The characters of a text that take part in decoding.
pub open spec fn b64_symbols(s: Seq<char>) -> Seq<char> {
    s.filter(|c: char| b64_counts(c))
}

/// The bytes that a run of symbols holds: three for each four symbols, and one
/// or two for a last group of two or three.
pub open spec fn b64_join(t: Seq<char>) -> Seq<u8>
    decreases t.len(),
{
    if t.len() < 2 {
        seq![]
    } else {
        let v0 = b64_value(t[0])->0;
        let v1 = b64_value(t[1])->0;
        let first = (v0 * 4 + v1 / 16) as u8;
        if t.len() == 2 {
            seq![first]
        } else {
            let v2 = b64_value(t[2])->0;
            let second = (v1 % 16 * 16 + v2 / 4) as u8;
            if t.len() == 3 {
                seq![first, second]
            } else {
                let v3 = b64_value(t[3])->0;
                seq![first, second, (v2 % 4 * 64 + v3) as u8] + b64_join(t.skip(4))
            }
        }
    }
}

/// Whether every character is a symbol of the alphabet.
pub open spec fn b64_all_symbols(t: Seq<char>) -> bool {
    forall|i: int| 0 <= i < t.len() ==> b64_value(#[trigger] t[i]) is Some
}

/// What a text decodes to: nothing where a character outside the alphabet
/// occurs or a lone symbol is left over.
pub open spec fn b64_bytes(s: Seq<char>) -> Option<Seq<u8>> {
    let t = b64_symbols(s);
    if b64_all_symbols(t) && t.len() % 4 != 1 {
        Some(b64_join(t))
    } else {
        None
    }
}

/// The symbol for a six-bit value.
fn symbol(v: u8) -> (c: char)
    requires
        v < 64,
    ensures
        c == b64_symbol(v as int),
{
    if v < 26 {
        (65 + v) as char
    } else if v < 52 {
        (97 + (v - 26)) as char
    } else if v < 62 {
        (48 + (v - 52)) as char
    } else if v == 62 {
        '+'
    } else {
        '/'
    }
}

/// The six-bit value of a symbol.
fn value(c: char) -> (v: Option<u8>)
    ensures
        match v {
            Some(n) => b64_value(c) == Some(n as int) && n < 64,
            None => b64_value(c) is None,
        },
{
    if 'A' <= c && c <= 'Z' {
        Some((c as u8) - 65)
    } else if 'a' <= c && c <= 'z' {
        Some((c as u8) - 97 + 26)
    } else if '0' <= c && c <= '9' {
        Some((c as u8) - 48 + 52)
    } else if c == '+' {
        Some(62)
    } else if c == '/' {
        Some(63)
    } else {
        None
    }
}

/// Encodes bytes as standard padded base64.
pub fn b64_encode(input: &[u8]) -> (out: String)
    ensures
        out@ == b64_text(input@),
{
    let mut out = String::new();
    let mut i: usize = 0;
    assert(input@.skip(0) =~= input@);
    assert(out@ + b64_text(input@) =~= b64_text(input@));
    while i < input.len()
        invariant
            i <= input.len(),
            out@ + b64_text(input@.skip(i as int)) == b64_text(input@),
        decreases input.len() - i,
    {
        let ghost rest = input@.skip(i as int);
        let ghost before = out@;
        let left: usize = input.len() - i;
        let b0: u8 = input[i];
        let b1: u8 = if left > 1 {
            input[i + 1]
        } else {
            0
        };
        let b2: u8 = if left > 2 {
            input[i + 2]
        } else {
            0
        };
        let c0 = symbol(b0 / 4);
        let c1 = symbol(b0 % 4 * 16 + b1 / 16);
        let c2 = if left > 1 {
            symbol(b1 % 16 * 4 + b2 / 64)
        } else {
            '='
        };
        let c3 = if left > 2 {
            symbol(b2 % 64)
        } else {
            '='
        };
        out.push(c0);
        out.push(c1);
        out.push(c2);
        out.push(c3);
        let step: usize = if left > 3 {
            3
        } else {
            left
        };
        proof {
            let quad = seq![c0, c1, c2, c3];
            assert(out@ =~= before + quad);
            let tail = if left > 3 {
                b64_text(rest.skip(3))
            } else {
                seq![]
            };
            assert(b64_text(rest) == quad + tail);
            if left > 3 {
                assert(rest.skip(3) =~= input@.skip(i + 3));
            } else {
                assert(input@.skip(i + left) =~= Seq::<u8>::empty());
            }
            assert(tail == b64_text(input@.skip(i + step)));
            assert(before + (quad + tail) =~= (before + quad) + tail);
        }
        i += step;
    }
    assert(input@.skip(input@.len() as int) =~= Seq::<u8>::empty());
    assert(out@ + Seq::<char>::empty() =~= out@);
    out
}

/// The characters of a text that are neither padding nor ASCII white space.
fn counted_symbols(s: &str) -> (out: Vec<char>)
    ensures
        out@ == b64_symbols(s@),
{
    let chars = chars_of(s);
    let mut out: Vec<char> = Vec::new();
    let mut i: usize = 0;
    let ghost counts = |c: char| b64_counts(c);
    assert(s@.take(0).filter(counts) =~= Seq::<char>::empty()) by {
        reveal(Seq::filter);
    }
    while i < chars.len()
        invariant
            chars@ == s@,
            i <= chars.len(),
            counts == (|c: char| b64_counts(c)),
            out@ == s@.take(i as int).filter(counts),
        decreases chars.len() - i,
    {
        let c = chars[i];
        let ghost before = out@;
        if c != '=' && c != ' ' && c != '\t' && c != '\n' && c != '\r' && c as u32 != 0xc {
            out.push(c);
        }
        proof {
            let t = s@.take(i + 1);
            assert(t.drop_last() =~= s@.take(i as int));
            assert(t.last() == c);
            reveal(Seq::filter);
            assert(counts(c) == b64_counts(c));
        }
        i += 1;
    }
    assert(s@.take(s@.len() as int) =~= s@);
    out
}

/// Decodes the group of two to four symbols that starts at `i`; `None` where
/// one of them is outside the alphabet.
fn decode_group(t: &[char], i: usize) -> (out: Option<Vec<u8>>)
    requires
        i + 2 <= t.len(),
    ensures
        match out {
            Some(g) => {
                let rest = t@.skip(i as int);
                &&& forall|j: int|
                    i <= j < i + 4 && j < t@.len() ==> b64_value(#[trigger] t@[j]) is Some
                &&& b64_join(rest) == g@ + b64_join(
                    if rest.len() >= 4 {
                        rest.skip(4)
                    } else {
                        seq![]
                    },
                )
            },
            None => exists|j: int| i <= j < t@.len() && b64_value(#[trigger] t@[j]) is None,
        },
{
    let ghost rest = t@.skip(i as int);
    let left: usize = t.len() - i;
    let mut out: Vec<u8> = Vec::new();
    let v0 = match value(t[i]) {
        Some(v) => v,
        None => {
            assert(b64_value(t@[i as int]) is None);
            return None;
        },
    };
    let v1 = match value(t[i + 1]) {
        Some(v) => v,
        None => {
            assert(b64_value(t@[i + 1]) is None);
            return None;
        },
    };
    out.push(v0 * 4 + v1 / 16);
    if left >= 3 {
        let v2 = match value(t[i + 2]) {
            Some(v) => v,
            None => {
                assert(b64_value(t@[i + 2]) is None);
                return None;
            },
        };
        out.push(v1 % 16 * 16 + v2 / 4);
        if left >= 4 {
            let v3 = match value(t[i + 3]) {
                Some(v) => v,
                None => {
                    assert(b64_value(t@[i + 3]) is None);
                    return None;
                },
            };
            out.push(v2 % 4 * 64 + v3);
        }
    }
    assert(b64_join(Seq::<char>::empty()) =~= Seq::<u8>::empty());
    assert(b64_join(rest) =~= out@ + b64_join(
        if rest.len() >= 4 {
            rest.skip(4)
        } else {
            seq![]
        },
    ));
    Some(out)
}

/// Decodes standard base64: padding is optional, `=` and ASCII white space are
/// ignored. `None` on a character outside the alphabet or a truncated group.
pub fn b64_decode(input: &str) -> (out: Option<Vec<u8>>)
    ensures
        match out {
            Some(bytes) => b64_bytes(input@) == Some(bytes@),
            None => b64_bytes(input@) is None,
        },
{
    let t = counted_symbols(input);
    let mut out: Vec<u8> = Vec::new();
    let mut i: usize = 0;
    assert(t@.skip(0) =~= t@);
    assert(out@ + b64_join(t@) =~= b64_join(t@));
    while i < t.len()
        invariant
            t@ == b64_symbols(input@),
            i <= t.len(),
            i == t.len() || i % 4 == 0,
            i == t.len() ==> t.len() % 4 != 1,
            forall|j: int| 0 <= j < i ==> b64_value(#[trigger] t@[j]) is Some,
            out@ + b64_join(t@.skip(i as int)) == b64_join(t@),
        decreases t.len() - i,
    {
        let ghost rest = t@.skip(i as int);
        let ghost before = out@;
        let left: usize = t.len() - i;
        if left < 2 {
            return None;
        }
        let mut group = match decode_group(t.as_slice(), i) {
            Some(g) => g,
            None => {
                return None;
            },
        };
        let step: usize = if left > 4 {
            4
        } else {
            left
        };
        let ghost g = group@;
        out.append(&mut group);
        proof {
            if left >= 4 {
                assert(rest.skip(4) =~= t@.skip(i + 4));
            } else {
                assert(t@.skip(i + step) =~= Seq::<char>::empty());
            }
            let tail = b64_join(t@.skip(i + step));
            assert(before + (g + tail) =~= (before + g) + tail);
        }
        i += step;
    }
    assert(t@.skip(t@.len() as int) =~= Seq::<char>::empty());
    assert(out@ + Seq::<u8>::empty() =~= out@);
    Some(out)
}

proof fn lemma_symbol_value(v: int)
    requires
        0 <= v < 64,
    ensures
        b64_value(b64_symbol(v)) == Some(v),
        b64_counts(b64_symbol(v)),
{
}

proof fn lemma_group_bits(b0: int, b1: int, b2: int)
    requires
        0 <= b0 < 256,
        0 <= b1 < 256,
        0 <= b2 < 256,
    ensures
        0 <= b0 / 4 < 64,
        0 <= b0 % 4 * 16 + b1 / 16 < 64,
        0 <= b1 % 16 * 4 + b2 / 64 < 64,
        0 <= b2 % 64 < 64,
        b0 / 4 * 4 + (b0 % 4 * 16 + b1 / 16) / 16 == b0,
        (b0 % 4 * 16 + b1 / 16) % 16 * 16 + (b1 % 16 * 4 + b2 / 64) / 4 == b1,
        (b1 % 16 * 4 + b2 / 64) % 4 * 64 + b2 % 64 == b2,
{
}

proof fn lemma_kept(quad: Seq<char>, n: int)
    requires
        quad.len() == 4,
        2 <= n <= 4,
        forall|i: int| 0 <= i < n ==> b64_counts(#[trigger] quad[i]),
        forall|i: int| n <= i < 4 ==> !b64_counts(#[trigger] quad[i]),
    ensures
        b64_symbols(quad) == quad.take(n),
{
    let counts = |c: char| b64_counts(c);
    reveal(Seq::filter);
    assert(quad.take(0).filter(counts) =~= Seq::<char>::empty());
    assert(quad.take(1).drop_last() =~= quad.take(0));
    assert(quad.take(1).filter(counts) =~= quad.take(1));
    assert(quad.take(2).drop_last() =~= quad.take(1));
    assert(quad.take(2).filter(counts) =~= quad.take(2));
    assert(quad.take(3).drop_last() =~= quad.take(2));
    assert(quad.take(3).filter(counts) =~= if n >= 3 {
        quad.take(3)
    } else {
        quad.take(2)
    });
    assert(quad.drop_last() =~= quad.take(3));
    assert(quad.take(4) =~= quad);
}

/// The first group of an encoding, and what its symbols stand for.
proof fn lemma_first_group(bytes: Seq<u8>) -> (quad: Seq<char>)
    requires
        bytes.len() > 0,
    ensures
        quad.len() == 4,
        b64_text(bytes) == quad + (if bytes.len() > 3 {
            b64_text(bytes.skip(3))
        } else {
            seq![]
        }),
        ({
            let n: int = if bytes.len() >= 3 {
                4
            } else {
                bytes.len() as int + 1
            };
            let kept = quad.take(n);
            &&& b64_symbols(quad) == kept
            &&& b64_all_symbols(kept)
            &&& kept.len() == n
            &&& b64_join(kept) == bytes.take(n - 1)
        }),
{
    let b0 = bytes[0] as int;
    let b1 = if bytes.len() > 1 {
        bytes[1] as int
    } else {
        0
    };
    let b2 = if bytes.len() > 2 {
        bytes[2] as int
    } else {
        0
    };
    lemma_group_bits(b0, b1, b2);
    let s0 = b0 / 4;
    let s1 = b0 % 4 * 16 + b1 / 16;
    let s2 = b1 % 16 * 4 + b2 / 64;
    let s3 = b2 % 64;
    lemma_symbol_value(s0);
    lemma_symbol_value(s1);
    lemma_symbol_value(s2);
    lemma_symbol_value(s3);
    let quad = seq![
        b64_symbol(s0),
        b64_symbol(s1),
        if bytes.len() > 1 {
            b64_symbol(s2)
        } else {
            '='
        },
        if bytes.len() > 2 {
            b64_symbol(s3)
        } else {
            '='
        },
    ];
    let n: int = if bytes.len() >= 3 {
        4
    } else {
        bytes.len() as int + 1
    };
    let kept = quad.take(n);
    lemma_kept(quad, n);
    assert(b64_join(Seq::<char>::empty()) =~= Seq::<u8>::empty());
    assert(n == 4 ==> kept.skip(4) =~= Seq::<char>::empty());
    assert(b64_join(kept) =~= bytes.take(n - 1));
    quad
}

/// A whole group decodes on its own.
proof fn lemma_join_group(group: Seq<char>, rest: Seq<char>)
    requires
        group.len() == 4,
    ensures
        b64_join(group + rest) == b64_join(group) + b64_join(rest),
{
    let t = group + rest;
    assert(t.skip(4) =~= rest);
    assert(group.skip(4) =~= Seq::<char>::empty());
    assert(b64_join(Seq::<char>::empty()) =~= Seq::<u8>::empty());
    assert(b64_join(t) =~= b64_join(group) + b64_join(rest));
}

proof fn lemma_symbols_of_text(bytes: Seq<u8>)
    ensures
        b64_all_symbols(b64_symbols(b64_text(bytes))),
        b64_symbols(b64_text(bytes)).len() % 4 != 1,
        b64_join(b64_symbols(b64_text(bytes))) == bytes,
    decreases bytes.len(),
{
    let counts = |c: char| b64_counts(c);
    if bytes.len() == 0 {
        reveal(Seq::filter);
        assert(b64_symbols(b64_text(bytes)) =~= Seq::<char>::empty());
        assert(bytes =~= Seq::<u8>::empty());
    } else {
        let quad = lemma_first_group(bytes);
        let kept = b64_symbols(quad);
        let tail = if bytes.len() > 3 {
            b64_text(bytes.skip(3))
        } else {
            seq![]
        };
        Seq::filter_distributes_over_add(quad, tail, counts);
        let rest = tail.filter(counts);
        let t = kept + rest;
        assert(b64_symbols(b64_text(bytes)) == t);
        if bytes.len() > 3 {
            lemma_symbols_of_text(bytes.skip(3));
            assert(rest == b64_symbols(b64_text(bytes.skip(3))));
            assert forall|i: int| 0 <= i < t.len() implies b64_value(#[trigger] t[i]) is Some by {
                if i >= 4 {
                    assert(t[i] == rest[i - 4]);
                } else {
                    assert(t[i] == kept[i]);
                }
            }
            lemma_join_group(kept, rest);
            assert(bytes =~= bytes.take(3) + bytes.skip(3));
        } else {
            assert(rest =~= Seq::<char>::empty()) by {
                reveal(Seq::filter);
            }
            assert(t =~= kept);
            assert(bytes.take(bytes.len() as int) =~= bytes);
        }
    }
}

/// Decoding what was encoded gives the bytes back, whatever they hold.
pub proof fn law_b64_round_trip(bytes: Seq<u8>)
    ensures
        b64_bytes(b64_text(bytes)) == Some(bytes),
{
    lemma_symbols_of_text(bytes);
}

/// Three bytes are four symbols of the standard alphabet, high bits first, and the
/// groups keep their order; one or two bytes at the end are padded with `=`.
pub proof fn law_b64_is_written_group_by_group(a: u8, b: u8, c: u8, rest: Seq<u8>)
    ensures
        ({
            let s = "ABCDEFGHIJKLMNOPQRSTUVWXYZabcdefghijklmnopqrstuvwxyz0123456789+/"@;
            let (x, y, z) = (a as int, b as int, c as int);
            &&& b64_text(seq![]) == Seq::<char>::empty()
            &&& b64_text(seq![a]) == seq![s[x / 4], s[x % 4 * 16], '=', '=']
            &&& b64_text(seq![a, b]) == seq![s[x / 4], s[x % 4 * 16 + y / 16], s[y % 16 * 4], '=']
            &&& b64_text(seq![a, b, c] + rest) == seq![
                s[x / 4],
                s[x % 4 * 16 + y / 16],
                s[y % 16 * 4 + z / 64],
                s[z % 64],
            ] + b64_text(rest)
        }),
{
    let s = "ABCDEFGHIJKLMNOPQRSTUVWXYZabcdefghijklmnopqrstuvwxyz0123456789+/"@;
    let (x, y, z) = (a as int, b as int, c as int);
    lemma_alphabet(x / 4);
    lemma_alphabet(x % 4 * 16);
    lemma_alphabet(x % 4 * 16 + y / 16);
    lemma_alphabet(y % 16 * 4);
    lemma_alphabet(y % 16 * 4 + z / 64);
    lemma_alphabet(z % 64);
    assert(b64_text(seq![a]) =~= seq![s[x / 4], s[x % 4 * 16], '=', '=']);
    assert(b64_text(seq![a, b]) =~= seq![s[x / 4], s[x % 4 * 16 + y / 16], s[y % 16 * 4], '=']);
    let all = seq![a, b, c] + rest;
    assert(all[0] == a && all[1] == b && all[2] == c);
    if rest.len() > 0 {
        assert(all.skip(3) =~= rest);
    }
    assert(b64_text(all) =~= seq![
        s[x / 4],
        s[x % 4 * 16 + y / 16],
        s[y % 16 * 4 + z / 64],
        s[z % 64],
    ] + b64_text(rest));
}

/// The symbols stand in the order of the standard alphabet.
proof fn lemma_alphabet(v: int)
    requires
        0 <= v < 64,
    ensures
        b64_symbol(v)
            == "ABCDEFGHIJKLMNOPQRSTUVWXYZabcdefghijklmnopqrstuvwxyz0123456789+/"@[v],
{
    reveal_strlit("ABCDEFGHIJKLMNOPQRSTUVWXYZabcdefghijklmnopqrstuvwxyz0123456789+/");
}

/// A text with a character that is neither a symbol, padding nor ASCII white space
/// does not decode, and neither does one with a single symbol left over; any other
/// text does.
pub proof fn law_only_b64_text_is_decoded(s: Seq<char>)
    ensures
        b64_bytes(s) is Some <==> (forall|i: int|
            0 <= i < s.len() ==> ('A' <= #[trigger] s[i] <= 'Z' || 'a' <= s[i] <= 'z' || '0' <= s[i]
                <= '9' || s[i] == '+' || s[i] == '/' || s[i] == '=' || s[i] == ' ' || s[i] == '\t'
                || s[i] == '\n' || s[i] == '\r' || s[i] as u32 == 0xc)) && b64_symbols(s).len() % 4
            != 1,
{
    lemma_symbols_all(s);
    if b64_all_symbols(b64_symbols(s)) {
        assert forall|i: int| 0 <= i < s.len() implies ('A' <= #[trigger] s[i] <= 'Z' || 'a' <= s[i]
            <= 'z' || '0' <= s[i] <= '9' || s[i] == '+' || s[i] == '/' || s[i] == '=' || s[i] == ' '
            || s[i] == '\t' || s[i] == '\n' || s[i] == '\r' || s[i] as u32 == 0xc) by {
            assert(b64_counts(s[i]) ==> b64_value(s[i]) is Some);
        }
    }
}

/// The symbols of a text are all in the alphabet exactly where each character that
/// counts is.
proof fn lemma_symbols_all(s: Seq<char>)
    ensures
        b64_all_symbols(b64_symbols(s)) <==> forall|i: int|
            0 <= i < s.len() ==> (b64_counts(#[trigger] s[i]) ==> b64_value(s[i]) is Some),
    decreases s.len(),
{
    reveal(Seq::filter);
    let t = b64_symbols(s);
    if s.len() > 0 {
        let front = s.drop_last();
        lemma_symbols_all(front);
        let u = b64_symbols(front);
        if b64_counts(s.last()) {
            assert(t =~= u.push(s.last()));
            if b64_all_symbols(t) {
                assert forall|i: int| 0 <= i < u.len() implies b64_value(#[trigger] u[i]) is Some by {
                    assert(u[i] == t[i]);
                }
                assert(b64_value(t[t.len() - 1]) is Some);
            }
        } else {
            assert(t =~= u);
        }
        assert forall|i: int| 0 <= i < front.len() implies #[trigger] front[i] == s[i] by {}
        if forall|i: int|
            0 <= i < s.len() ==> (b64_counts(#[trigger] s[i]) ==> b64_value(s[i]) is Some) {
            assert forall|i: int| 0 <= i < front.len() && b64_counts(#[trigger] front[i]) implies
                b64_value(front[i]) is Some by {
                assert(b64_counts(s[i]) ==> b64_value(s[i]) is Some);
            }
            assert(b64_counts(s[s.len() - 1]) ==> b64_value(s[s.len() - 1]) is Some);
        }
        if b64_all_symbols(t) {
            assert forall|i: int| 0 <= i < s.len() && b64_counts(#[trigger] s[i]) implies
                b64_value(s[i]) is Some by {
                if i < front.len() {
                    assert(b64_counts(front[i]) ==> b64_value(front[i]) is Some);
                }
            }
        }
    }
}

/// What is encoded decodes to the same bytes, call for call.
pub proof fn law_b64_calls_undo_each_other(
    bytes: &[u8],
    text: String,
    again: &str,
    back: Option<Vec<u8>>,
)
    requires
        call_ensures(b64_encode, (bytes,), text),
        again@ == text@,
        call_ensures(b64_decode, (again,), back),
    ensures
        text@ == b64_text(bytes@),
        back matches Some(b) && b@ == bytes@,
{
    law_b64_round_trip(bytes@);
}

} // verus!
