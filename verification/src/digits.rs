//! Numbers in digits: decimal text for numbers, and numbers for digits.
use crate::hex::{digit_value, hex_digit, hex_value};
use vstd::prelude::*;

verus! {

/// The value of a run of digits in base `base`, most significant first.
pub open spec fn digits_value(p: Seq<char>, base: int) -> int
    decreases p.len(),
{
    if p.len() == 0 {
        0
    } else {
        digits_value(p.drop_last(), base) * base + hex_value(p.last())->0
    }
}

/// Whether `p` holds digits of base `base` only.
pub open spec fn all_digits(p: Seq<char>, base: int) -> bool {
    forall|i: int|
        0 <= i < p.len() ==> (hex_value(#[trigger] p[i]) is Some && hex_value(p[i])->0 < base)
}

/// The decimal text of a number, without leading zeros.
pub open spec fn decimal(n: nat) -> Seq<char>
    decreases n,
{
    if n < 10 {
        seq![hex_digit(n as int)]
    } else {
        decimal(n / 10).push(hex_digit(n as int % 10))
    }
}

/// The number that a text names in decimal: digits, with an optional `+` before
/// them, of a value that 16 bits hold.
pub open spec fn decimal_u16(s: Seq<char>) -> Option<u16> {
    let d = if s.len() > 0 && s[0] == '+' {
        s.drop_first()
    } else {
        s
    };
    if d.len() > 0 && all_digits(d, 10) && digits_value(d, 10) <= 65535 {
        Some(digits_value(d, 10) as u16)
    } else {
        None
    }
}

/// Writes a number in decimal.
pub fn decimal_text(n: u64) -> (s: String)
    ensures
        s@ == decimal(n as nat),
    decreases n,
{
    if n < 10 {
        let mut s = String::new();
        s.push((48 + (n as u8)) as char);
        assert(s@ =~= decimal(n as nat));
        s
    } else {
        let mut s = decimal_text(n / 10);
        s.push((48 + ((n % 10) as u8)) as char);
        s
    }
}

pub(crate) proof fn lemma_digits_bound(p: Seq<char>, base: int)
    requires
        2 <= base <= 16,
        all_digits(p, base),
    ensures
        0 <= digits_value(p, base),
        p.len() <= 1 ==> digits_value(p, base) < base,
        p.len() <= 2 ==> digits_value(p, base) < base * base,
        p.len() <= 3 ==> digits_value(p, base) < base * base * base,
        p.len() <= 4 ==> digits_value(p, base) < base * base * base * base,
    decreases p.len(),
{
    if p.len() > 0 {
        let q = p.drop_last();
        assert forall|i: int| 0 <= i < q.len() implies (hex_value(#[trigger] q[i]) is Some
            && hex_value(q[i])->0 < base) by {
            assert(q[i] == p[i]);
        }
        lemma_digits_bound(q, base);
        let d = digits_value(q, base);
        let e = hex_value(p.last())->0;
        assert(0 <= e < base);
        assert(d * base + e >= 0) by (nonlinear_arith)
            requires
                d >= 0,
                base >= 2,
                e >= 0,
        ;
        if p.len() == 1 {
            assert(q =~= Seq::<char>::empty());
            assert(digits_value(p, base) == 0 * base + e);
        }
        assert(p.len() <= 2 ==> d * base + e < base * base) by (nonlinear_arith)
            requires
                p.len() <= 2 ==> d < base,
                0 <= d,
                0 <= e < base,
        ;
        assert(p.len() <= 3 ==> d * base + e < base * base * base) by (nonlinear_arith)
            requires
                p.len() <= 3 ==> d < base * base,
                0 <= d,
                0 <= e < base,
        ;
        assert(p.len() <= 4 ==> d * base + e < base * base * base * base) by (nonlinear_arith)
            requires
                p.len() <= 4 ==> d < base * base * base,
                0 <= d,
                0 <= e < base,
        ;
        if p.len() <= 3 {
            assert(base <= base * base) by (nonlinear_arith)
                requires
                    base >= 2,
            ;
            assert(base * base <= base * base * base) by (nonlinear_arith)
                requires
                    base >= 2,
            ;
            assert(base * base * base <= base * base * base * base) by (nonlinear_arith)
                requires
                    base >= 2,
            ;
        }
    } else {
        assert(base * base > 0 && base * base * base > 0 && base * base * base * base > 0)
            by (nonlinear_arith)
            requires
                base >= 2,
        ;
    }
}

/// A longer run of digits has no smaller value.
proof fn lemma_digits_grow(d: Seq<char>, k: int)
    requires
        all_digits(d, 10),
        0 <= k <= d.len(),
    ensures
        digits_value(d.take(k), 10) <= digits_value(d, 10),
        0 <= digits_value(d.take(k), 10),
    decreases d.len(),
{
    if k == d.len() {
        assert(d.take(k) =~= d);
        lemma_digits_bound(d, 10);
    } else {
        let e = d.drop_last();
        assert forall|i: int| 0 <= i < e.len() implies (hex_value(#[trigger] e[i]) is Some
            && hex_value(e[i])->0 < 10) by {
            assert(e[i] == d[i]);
        }
        lemma_digits_grow(e, k);
        assert(e.take(k) =~= d.take(k));
    }
}

/// Reads a 16-bit number in decimal.
pub fn parse_u16(s: &[char]) -> (out: Option<u16>)
    ensures
        out == decimal_u16(s@),
{
    let start: usize = if s.len() > 0 && s[0] == '+' {
        1
    } else {
        0
    };
    let ghost d = s@.skip(start as int);
    assert(start == 1 ==> d =~= s@.drop_first());
    assert(start == 0 ==> d =~= s@);
    if s.len() == start {
        return None;
    }
    let mut n: u32 = 0;
    let mut i: usize = start;
    assert(d.take(0) =~= Seq::<char>::empty());
    while i < s.len()
        invariant
            start <= i <= s.len(),
            d == s@.skip(start as int),
            decimal_u16(s@) == (if d.len() > 0 && all_digits(d, 10) && digits_value(d, 10) <= 65535 {
                Some(digits_value(d, 10) as u16)
            } else {
                None
            }),
            all_digits(d.take(i - start), 10),
            n == digits_value(d.take(i - start), 10),
            n <= 65535,
        decreases s.len() - i,
    {
        let ghost k = i - start;
        assert(d[k] == s@[i as int]);
        let v: u32 = match digit_value(s[i]) {
            Some(v) => v as u32,
            None => {
                assert(hex_value(d[k]) is None);
                return None;
            },
        };
        if v >= 10 {
            assert(hex_value(d[k])->0 >= 10);
            return None;
        }
        n = n * 10 + v;
        proof {
            let next = d.take(k + 1);
            assert(next.drop_last() =~= d.take(k));
            assert(next.last() == d[k]);
            assert forall|j: int| 0 <= j < next.len() implies (hex_value(#[trigger] next[j])
                is Some && hex_value(next[j])->0 < 10) by {
                if j < k {
                    assert(next[j] == d.take(k)[j]);
                }
            }
            if all_digits(d, 10) {
                lemma_digits_grow(d, k + 1);
            }
        }
        if n > 65535 {
            return None;
        }
        i += 1;
    }
    assert(d.take(d.len() as int) =~= d);
    Some(n as u16)
}

/// Reading the decimal text of a number gives the number back.
pub proof fn law_decimal_round_trip(n: u16)
    ensures
        decimal_u16(decimal(n as nat)) == Some(n),
{
    lemma_decimal_value(n as nat);
    let d = decimal(n as nat);
    assert(hex_value(d[0]) is Some);
    assert(d[0] != '+');
}

/// The decimal text of a number is made of digits and has its value.
pub proof fn lemma_decimal_value(n: nat)
    ensures
        decimal(n).len() > 0,
        all_digits(decimal(n), 10),
        digits_value(decimal(n), 10) == n,
    decreases n,
{
    let d = decimal(n);
    if n < 10 {
        assert(d.drop_last() =~= Seq::<char>::empty());
        assert(d.last() == hex_digit(n as int));
        assert(digits_value(d.drop_last(), 10) == 0);
    } else {
        lemma_decimal_value(n / 10);
        let q = decimal(n / 10);
        assert(d.drop_last() =~= q);
        assert(d.last() == hex_digit(n as int % 10));
        assert(hex_value(d.last()) == Some(n as int % 10));
        assert(digits_value(d, 10) == (n / 10) * 10 + n as int % 10);
        assert forall|i: int| 0 <= i < d.len() implies (hex_value(#[trigger] d[i]) is Some
            && hex_value(d[i])->0 < 10) by {
            if i < q.len() {
                assert(d[i] == q[i]);
            }
        }
    }
}

/// Decimal text is written most significant digit first, in the characters `0`
/// to `9`, without leading zeros.
pub proof fn law_decimal_is_written_digit_by_digit(n: nat, d: nat)
    requires
        d < 10,
    ensures
        decimal(d) == seq!["0123456789"@[d as int]],
        n > 0 ==> decimal(10 * n + d) == decimal(n).push("0123456789"@[d as int]),
{
    reveal_strlit("0123456789");
    assert((10 * n + d) / 10 == n && (10 * n + d) % 10 == d);
}

/// A text names a 16-bit number exactly where it is one or more of the characters
/// `0` to `9` whose value is below 65536. One `+` before it changes nothing.
pub proof fn law_only_decimal_text_is_read(s: Seq<char>)
    requires
        s.len() == 0 || s[0] != '+',
    ensures
        decimal_u16(s) is Some <==> s.len() > 0 && (forall|i: int|
            0 <= i < s.len() ==> '0' <= #[trigger] s[i] && s[i] <= '9') && digits_value(s, 10)
            < 65536,
        decimal_u16(s) matches Some(n) ==> n == digits_value(s, 10),
        decimal_u16(seq!['+'] + s) == decimal_u16(s),
{
    assert((seq!['+'] + s).drop_first() =~= s);
    if all_digits(s, 10) {
        assert forall|i: int| 0 <= i < s.len() implies '0' <= #[trigger] s[i] && s[i] <= '9' by {
            assert(hex_value(s[i]) is Some && hex_value(s[i])->0 < 10);
        }
        lemma_digits_bound(s, 10);
    }
    if forall|i: int| 0 <= i < s.len() ==> '0' <= #[trigger] s[i] && s[i] <= '9' {
        assert forall|i: int| 0 <= i < s.len() implies (hex_value(#[trigger] s[i]) is Some
            && hex_value(s[i])->0 < 10) by {
            assert('0' <= s[i] && s[i] <= '9');
        }
        assert(all_digits(s, 10));
        lemma_digits_bound(s, 10);
    }
}

/// A digit more makes the value ten times as large, plus the digit.
pub proof fn law_digits_have_their_place(d: Seq<char>, c: char)
    requires
        '0' <= c <= '9',
    ensures
        digits_value(seq![], 10) == 0,
        digits_value(d.push(c), 10) == 10 * digits_value(d, 10) + (c as int - '0' as int),
{
    assert(d.push(c).drop_last() =~= d);
}

/// A number that is written is read as that number, call for call.
pub proof fn law_decimal_calls_undo_each_other(
    n: u16,
    text: String,
    chars: &[char],
    back: Option<u16>,
)
    requires
        call_ensures(decimal_text, (n as u64,), text),
        chars@ == text@,
        call_ensures(parse_u16, (chars,), back),
    ensures
        text@ == decimal(n as nat),
        back == Some(n),
{
    law_decimal_round_trip(n);
}

} // verus!
