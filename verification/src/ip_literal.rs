//! IP addresses and their textual forms.
//!
//! An IPv4 literal is four decimal octets without leading zeros. An IPv6 literal
//! is eight groups of one to four hexadecimal digits; `::` stands for one or more
//! zero groups, at most once, and the last two groups may be written as an IPv4
//! literal.
use crate::digits::{
    all_digits, decimal, digits_value, lemma_decimal_value, lemma_digits_bound,
};
use crate::hex::{digit_value, hex_digit, hex_value};
use crate::http_head::{holds, join, lemma_split_of_join};
use crate::text::{
    law_split_cuts_at_the_separator, slice_chars, split, split_chars, views,
};
use vstd::prelude::*;

verus! {

/// An IPv4 address: its four octets, most significant first.
#[derive(Debug, Clone, Copy, PartialEq, Eq)]
pub struct Ipv4Addr {
    pub octets: [u8; 4],
}

/// An IPv6 address: its eight 16-bit segments, most significant first.
#[derive(Debug, Clone, Copy, PartialEq, Eq)]
pub struct Ipv6Addr {
    pub segments: [u16; 8],
}

/// An IP address of either family.
#[derive(Debug, Clone, Copy, PartialEq, Eq)]
pub enum IpAddr {
    V4(Ipv4Addr),
    V6(Ipv6Addr),
}

/// What an address is: four octets or eight segments.
pub enum IpView {
    V4(Seq<u8>),
    V6(Seq<u16>),
}

impl IpAddr {
    /// The address as a mathematical value.
    pub open spec fn view(&self) -> IpView {
        match self {
            IpAddr::V4(a) => IpView::V4(a.octets@),
            IpAddr::V6(a) => IpView::V6(a.segments@),
        }
    }
}

/// A decimal octet: one to three digits, no leading zero, at most 255.
pub open spec fn octet(p: Seq<char>) -> Option<u8> {
    if 1 <= p.len() <= 3 && all_digits(p, 10) && !(p.len() > 1 && p[0] == '0') && digits_value(
        p,
        10,
    ) <= 255 {
        Some(digits_value(p, 10) as u8)
    } else {
        None
    }
}

/// A hexadecimal group: one to four digits.
pub open spec fn hex_group(p: Seq<char>) -> Option<u16> {
    if 1 <= p.len() <= 4 && all_digits(p, 16) {
        Some(digits_value(p, 16) as u16)
    } else {
        None
    }
}

/// The octets that an IPv4 literal names.
pub open spec fn ipv4_literal(s: Seq<char>) -> Option<Seq<u8>> {
    let p = split(s, '.');
    if p.len() == 4 && forall|i: int| 0 <= i < 4 ==> octet(#[trigger] p[i]) is Some {
        Some(Seq::new(4, |i: int| octet(p[i])->0))
    } else {
        None
    }
}

/// The two segments that four octets fill.
pub open spec fn octet_segments(o: Seq<u8>) -> Seq<u16> {
    seq![(o[0] * 256 + o[1]) as u16, (o[2] * 256 + o[3]) as u16]
}

/// The segments of a run of groups, which may be empty. Where `dotted`, the last
/// group may be an IPv4 literal, which fills two segments.
pub open spec fn ipv6_groups(s: Seq<char>, dotted: bool) -> Option<Seq<u16>> {
    if s.len() == 0 {
        Some(seq![])
    } else {
        let p = split(s, ':');
        let front = p.drop_last();
        if forall|i: int| 0 <= i < front.len() ==> hex_group(#[trigger] front[i]) is Some {
            let segments = Seq::new(front.len(), |i: int| hex_group(front[i])->0);
            if hex_group(p.last()) is Some {
                Some(segments + seq![hex_group(p.last())->0])
            } else if dotted && ipv4_literal(p.last()) is Some {
                Some(segments + octet_segments(ipv4_literal(p.last())->0))
            } else {
                None
            }
        } else {
            None
        }
    }
}

/// Whether a `::` starts at index `i`.
pub open spec fn gap_at(s: Seq<char>, i: int) -> bool {
    0 <= i && i + 1 < s.len() && s[i] == ':' && s[i + 1] == ':'
}

/// Whether the first `::` starts at index `i`.
pub open spec fn first_gap(s: Seq<char>, i: int) -> bool {
    gap_at(s, i) && forall|j: int| 0 <= j < i ==> !#[trigger] gap_at(s, j)
}

/// The segments of an IPv6 literal whose first `::` starts at `k`.
pub open spec fn ipv6_with_gap(s: Seq<char>, k: int) -> Option<Seq<u16>> {
    match (ipv6_groups(s.take(k), false), ipv6_groups(s.skip(k + 2), true)) {
        (Some(head), Some(tail)) => if head.len() + tail.len() <= 7 {
            Some(head + Seq::new((8 - head.len() - tail.len()) as nat, |i: int| 0u16) + tail)
        } else {
            None
        },
        _ => None,
    }
}

/// The segments that an IPv6 literal names.
pub open spec fn ipv6_literal(s: Seq<char>) -> Option<Seq<u16>> {
    if exists|k: int| first_gap(s, k) {
        ipv6_with_gap(s, choose|k: int| first_gap(s, k))
    } else {
        match ipv6_groups(s, true) {
            Some(g) => if g.len() == 8 {
                Some(g)
            } else {
                None
            },
            None => None,
        }
    }
}

/// The address that a text names, where it is an IP literal.
pub open spec fn ip_literal(s: Seq<char>) -> Option<IpView> {
    if ipv4_literal(s) is Some {
        Some(IpView::V4(ipv4_literal(s)->0))
    } else if ipv6_literal(s) is Some {
        Some(IpView::V6(ipv6_literal(s)->0))
    } else {
        None
    }
}

/// The first piece of a split text starts as the text does.
proof fn lemma_split_keeps_first(s: Seq<char>, c: char)
    requires
        s.len() > 0,
        s[0] != c,
    ensures
        split(s, c).len() > 0,
        split(s, c)[0].len() > 0,
        split(s, c)[0][0] == s[0],
{
}

/// A text that starts with a bracket starts no run of groups.
proof fn lemma_bracket_starts_no_groups(s: Seq<char>, dotted: bool)
    requires
        s.len() > 0,
        s[0] == '[',
    ensures
        ipv4_literal(s) is None,
        ipv6_groups(s, dotted) is None,
{
    lemma_split_keeps_first(s, '.');
    assert(octet(split(s, '.')[0]) is None);
    let p = split(s, ':');
    lemma_split_keeps_first(s, ':');
    assert(hex_group(p[0]) is None);
    if p.len() == 1 {
        lemma_split_keeps_first(p[0], '.');
        assert(octet(split(p[0], '.')[0]) is None);
    } else {
        assert(p.drop_last()[0] == p[0]);
    }
}

/// No IP literal starts with a bracket.
pub proof fn lemma_bracketed_text_is_no_literal(s: Seq<char>)
    requires
        s.len() > 0,
        s[0] == '[',
    ensures
        ip_literal(s) is None,
{
    lemma_bracket_starts_no_groups(s, true);
    if exists|k: int| first_gap(s, k) {
        let k = choose|k: int| first_gap(s, k);
        assert(s.take(k)[0] == '[');
        lemma_bracket_starts_no_groups(s.take(k), false);
    }
}

/// Reads a run of at most four digits; `None` where one is no digit of the base.
fn read_number(p: &[char], base: u32) -> (out: Option<u32>)
    requires
        p.len() <= 4,
        base == 10 || base == 16,
    ensures
        match out {
            Some(n) => all_digits(p@, base as int) && n == digits_value(p@, base as int),
            None => !all_digits(p@, base as int),
        },
{
    let mut n: u32 = 0;
    let mut i: usize = 0;
    assert(p@.take(0) =~= Seq::<char>::empty());
    while i < p.len()
        invariant
            i <= p.len() <= 4,
            base == 10 || base == 16,
            all_digits(p@.take(i as int), base as int),
            n == digits_value(p@.take(i as int), base as int),
        decreases p.len() - i,
    {
        let d: u32 = match digit_value(p[i]) {
            Some(d) => d as u32,
            None => {
                assert(hex_value(p@[i as int]) is None);
                return None;
            },
        };
        if d >= base {
            assert(hex_value(p@[i as int])->0 >= base);
            return None;
        }
        proof {
            lemma_digits_bound(p@.take(i as int), base as int);
            let next = p@.take(i + 1);
            assert(next.drop_last() =~= p@.take(i as int));
            assert(next.last() == p@[i as int]);
            assert forall|j: int| 0 <= j < next.len() implies (hex_value(#[trigger] next[j])
                is Some && hex_value(next[j])->0 < base) by {
                if j < i {
                    assert(next[j] == p@.take(i as int)[j]);
                }
            }
            if base == 10 {
                assert(n < 1000);
            } else {
                assert(n < 4096);
            }
        }
        if base == 10 {
            n = n * 10 + d;
        } else {
            n = n * 16 + d;
        }
        i += 1;
    }
    assert(p@.take(p@.len() as int) =~= p@);
    Some(n)
}

/// Reads a decimal octet.
fn read_octet(p: &[char]) -> (out: Option<u8>)
    ensures
        out == octet(p@),
{
    if p.len() < 1 || p.len() > 3 {
        return None;
    }
    match read_number(p, 10) {
        Some(n) => if (p.len() > 1 && p[0] == '0') || n > 255 {
            None
        } else {
            Some(n as u8)
        },
        None => None,
    }
}

/// Reads a hexadecimal group.
fn read_group(p: &[char]) -> (out: Option<u16>)
    ensures
        out == hex_group(p@),
{
    if p.len() < 1 || p.len() > 4 {
        return None;
    }
    match read_number(p, 16) {
        Some(n) => {
            proof {
                lemma_digits_bound(p@, 16);
            }
            Some(n as u16)
        },
        None => None,
    }
}

/// Reads an IPv4 literal.
pub fn parse_ipv4(s: &[char]) -> (out: Option<Ipv4Addr>)
    ensures
        match out {
            Some(a) => ipv4_literal(s@) == Some(a.octets@),
            None => ipv4_literal(s@) is None,
        },
{
    let p = split_chars(s, '.');
    let ghost q = split(s@, '.');
    assert(q == views(p@));
    if p.len() != 4 {
        return None;
    }
    assert forall|i: int| 0 <= i < 4 implies #[trigger] q[i] == p@[i]@ by {}
    match (
        read_octet(p[0].as_slice()),
        read_octet(p[1].as_slice()),
        read_octet(p[2].as_slice()),
        read_octet(p[3].as_slice()),
    ) {
        (Some(a), Some(b), Some(c), Some(d)) => {
            let octets: [u8; 4] = [a, b, c, d];
            proof {
                assert forall|i: int| 0 <= i < 4 implies octet(#[trigger] q[i]) is Some by {
                    assert(q[i] == p@[i]@);
                }
                assert(octets@ =~= Seq::new(4, |i: int| octet(q[i])->0));
            }
            Some(Ipv4Addr { octets })
        },
        _ => {
            assert(octet(q[0]) is None || octet(q[1]) is None || octet(q[2]) is None || octet(q[3])
                is None);
            None
        },
    }
}

/// Reads a run of groups.
fn read_groups(s: &[char], dotted: bool) -> (out: Option<Vec<u16>>)
    ensures
        match out {
            Some(g) => ipv6_groups(s@, dotted) == Some(g@),
            None => ipv6_groups(s@, dotted) is None,
        },
{
    let mut out: Vec<u16> = Vec::new();
    if s.len() == 0 {
        assert(out@ =~= seq![]);
        return Some(out);
    }
    let p = split_chars(s, ':');
    let ghost q = split(s@, ':');
    let ghost front = q.drop_last();
    assert(q == views(p@));
    let last: usize = p.len() - 1;
    let mut i: usize = 0;
    while i < last
        invariant
            s@.len() > 0,
            q == views(p@),
            q == split(s@, ':'),
            front == q.drop_last(),
            last == p.len() - 1,
            i <= last,
            out@.len() == i,
            forall|j: int| 0 <= j < i ==> hex_group(#[trigger] front[j]) is Some,
            forall|j: int| 0 <= j < i ==> #[trigger] out@[j] == hex_group(front[j])->0,
        decreases last - i,
    {
        assert(front[i as int] == p@[i as int]@);
        match read_group(p[i].as_slice()) {
            Some(v) => out.push(v),
            None => {
                assert(hex_group(front[i as int]) is None);
                return None;
            },
        }
        i += 1;
    }
    let ghost segments = Seq::new(front.len(), |i: int| hex_group(front[i])->0);
    assert(out@ =~= segments);
    assert(q.last() == p@[last as int]@);
    match read_group(p[last].as_slice()) {
        Some(v) => {
            out.push(v);
            assert(out@ =~= segments + seq![v]);
            Some(out)
        },
        None => {
            if !dotted {
                return None;
            }
            match parse_ipv4(p[last].as_slice()) {
                Some(a) => {
                    let o = a.octets;
                    let hi: u16 = (o[0] as u16) * 256 + (o[1] as u16);
                    let lo: u16 = (o[2] as u16) * 256 + (o[3] as u16);
                    out.push(hi);
                    out.push(lo);
                    assert(out@ =~= segments + octet_segments(a.octets@));
                    Some(out)
                },
                None => None,
            }
        },
    }
}

/// Finds the first `::`.
fn find_gap(s: &[char]) -> (out: Option<usize>)
    ensures
        match out {
            Some(k) => first_gap(s@, k as int),
            None => forall|k: int| !gap_at(s@, k),
        },
{
    let mut i: usize = 0;
    while i < s.len() && s.len() - i > 1
        invariant
            i <= s.len(),
            forall|j: int| 0 <= j < i ==> !#[trigger] gap_at(s@, j),
        decreases s.len() - i,
    {
        if s[i] == ':' && s[i + 1] == ':' {
            assert(gap_at(s@, i as int));
            return Some(i);
        }
        i += 1;
    }
    None
}

/// The eight segments as an address.
fn to_segments(g: &Vec<u16>) -> (out: Ipv6Addr)
    requires
        g.len() == 8,
    ensures
        out.segments@ == g@,
{
    let segments: [u16; 8] = [g[0], g[1], g[2], g[3], g[4], g[5], g[6], g[7]];
    assert(segments@ =~= g@);
    Ipv6Addr { segments }
}

/// Reads an IPv6 literal.
pub fn parse_ipv6(s: &[char]) -> (out: Option<Ipv6Addr>)
    ensures
        match out {
            Some(a) => ipv6_literal(s@) == Some(a.segments@),
            None => ipv6_literal(s@) is None,
        },
{
    match find_gap(s) {
        None => {
            assert(forall|k: int| !first_gap(s@, k));
            match read_groups(s, true) {
                Some(g) => if g.len() == 8 {
                    Some(to_segments(&g))
                } else {
                    None
                },
                None => None,
            }
        },
        Some(k) => {
            proof {
                let c = choose|c: int| first_gap(s@, c);
                assert(first_gap(s@, k as int));
                assert(c == k) by {
                    if c < k {
                        assert(!gap_at(s@, c));
                    }
                    if k < c {
                        assert(!gap_at(s@, k as int));
                    }
                }
                assert(s@.take(k as int) =~= s@.subrange(0, k as int));
                assert(s@.skip(k + 2) =~= s@.subrange(k + 2, s@.len() as int));
            }
            let n: usize = s.len();
            assert(k + 2 <= n);
            let head = match read_groups(slice_chars(s, 0, k).as_slice(), false) {
                Some(g) => g,
                None => {
                    return None;
                },
            };
            let mut tail = match read_groups(slice_chars(s, k + 2, n).as_slice(), true) {
                Some(g) => g,
                None => {
                    return None;
                },
            };
            let (h, t): (usize, usize) = (head.len(), tail.len());
            if h > 7 || t > 7 || h + t > 7 {
                return None;
            }
            let ghost zeros = Seq::new((8 - h - t) as nat, |i: int| 0u16);
            let ghost want = head@ + zeros + tail@;
            let mut all = head;
            while all.len() < 8 - t
                invariant
                    h <= all.len() <= 8 - t,
                    h + t <= 7,
                    zeros == Seq::new((8 - h - t) as nat, |i: int| 0u16),
                    head@.len() == h,
                    all@ == head@ + zeros.take(all.len() - h),
                decreases 8 - t - all.len(),
            {
                let ghost n = all.len() - h;
                all.push(0);
                assert(zeros.take(n + 1) =~= zeros.take(n).push(0u16));
                assert(all@ =~= head@ + zeros.take(n + 1));
            }
            assert(zeros.take((8 - h - t) as int) =~= zeros);
            all.append(&mut tail);
            assert(all@ =~= want);
            Some(to_segments(&all))
        },
    }
}

/// Reads an IP literal of either family.
pub fn parse_ip(s: &[char]) -> (out: Option<IpAddr>)
    ensures
        match out {
            Some(a) => ip_literal(s@) == Some(a@),
            None => ip_literal(s@) is None,
        },
{
    match parse_ipv4(s) {
        Some(a) => Some(IpAddr::V4(a)),
        None => match parse_ipv6(s) {
            Some(a) => Some(IpAddr::V6(a)),
            None => None,
        },
    }
}

// ── Laws ────────────────────────────────────────────────────────────────────

/// The decimal text of a byte is an octet.
proof fn lemma_octet_of_decimal(n: u8)
    ensures
        octet(decimal(n as nat)) == Some(n),
        forall|i: int| 0 <= i < decimal(n as nat).len() ==> #[trigger] decimal(n as nat)[i] != '.',
{
    let d = decimal(n as nat);
    lemma_decimal_value(n as nat);
    let tens = n as nat / 10;
    if n >= 10 {
        assert(d == decimal(tens).push(hex_digit(n as int % 10)));
        if n >= 100 {
            let hundreds = tens / 10;
            assert(hundreds < 10);
            assert(decimal(tens) == decimal(hundreds).push(hex_digit(tens as int % 10)));
            assert(decimal(hundreds) == seq![hex_digit(hundreds as int)]);
            assert(d[0] == hex_digit(hundreds as int));
        } else {
            assert(decimal(tens) == seq![hex_digit(tens as int)]);
            assert(d[0] == hex_digit(tens as int));
        }
    }
    assert forall|i: int| 0 <= i < d.len() implies #[trigger] d[i] != '.' by {
        assert(hex_value(d[i]) is Some);
    }
}

/// Four pieces with dots between them are cut into these pieces.
proof fn lemma_split_of_four(p: Seq<char>, q: Seq<char>, r: Seq<char>, s: Seq<char>)
    requires
        forall|i: int| 0 <= i < p.len() ==> #[trigger] p[i] != '.',
        forall|i: int| 0 <= i < q.len() ==> #[trigger] q[i] != '.',
        forall|i: int| 0 <= i < r.len() ==> #[trigger] r[i] != '.',
        forall|i: int| 0 <= i < s.len() ==> #[trigger] s[i] != '.',
    ensures
        split(p + seq!['.'] + q + seq!['.'] + r + seq!['.'] + s, '.') == seq![p, q, r, s],
{
    let dot = seq!['.'];
    let rs = r + dot + s;
    let qrs = q + dot + rs;
    law_split_cuts_at_the_separator(s, seq![], '.');
    law_split_cuts_at_the_separator(r, s, '.');
    law_split_cuts_at_the_separator(q, rs, '.');
    law_split_cuts_at_the_separator(p, qrs, '.');
    assert(p + dot + q + dot + r + dot + s =~= p + dot + qrs);
    assert(seq![p] + (seq![q] + (seq![r] + seq![s])) =~= seq![p, q, r, s]);
}

/// The dotted form of four octets is the literal of just these octets.
pub proof fn law_dotted_octets_are_read(a: u8, b: u8, c: u8, d: u8)
    ensures
        ip_literal(
            decimal(a as nat) + seq!['.'] + decimal(b as nat) + seq!['.'] + decimal(c as nat)
                + seq!['.'] + decimal(d as nat),
        ) == Some(IpView::V4(seq![a, b, c, d])),
{
    let text = decimal(a as nat) + seq!['.'] + decimal(b as nat) + seq!['.'] + decimal(c as nat)
        + seq!['.'] + decimal(d as nat);
    lemma_octet_of_decimal(a);
    lemma_octet_of_decimal(b);
    lemma_octet_of_decimal(c);
    lemma_octet_of_decimal(d);
    lemma_split_of_four(
        decimal(a as nat),
        decimal(b as nat),
        decimal(c as nat),
        decimal(d as nat),
    );
    assert(ipv4_literal(text)->0 =~= seq![a, b, c, d]);
}

/// Whether every text is one to four hexadecimal digits.
pub open spec fn are_groups(parts: Seq<Seq<char>>) -> bool {
    forall|i: int|
        0 <= i < parts.len() ==> 1 <= (#[trigger] parts[i]).len() <= 4 && all_digits(parts[i], 16)
}

/// The segments that groups stand for.
pub open spec fn group_values(parts: Seq<Seq<char>>) -> Seq<u16> {
    Seq::new(parts.len(), |i: int| digits_value(parts[i], 16) as u16)
}

/// Joined groups hold digits and single colons between them, and no dot.
proof fn lemma_joined_groups(parts: Seq<Seq<char>>)
    requires
        are_groups(parts),
        parts.len() > 0,
    ensures
        ({
            let s = join(parts, ':');
            &&& s.len() > 0 && s[0] != ':' && s[s.len() - 1] != ':'
            &&& forall|i: int| 0 <= i < s.len() ==> #[trigger] s[i] != '.'
            &&& forall|i: int| !#[trigger] gap_at(s, i)
        }),
    decreases parts.len(),
{
    let s = join(parts, ':');
    let first = parts[0];
    assert(1 <= first.len() <= 4 && all_digits(first, 16));
    assert forall|i: int| 0 <= i < first.len() implies #[trigger] first[i] != '.' && first[i]
        != ':' by {
        assert(hex_value(first[i]) is Some);
    }
    if parts.len() == 1 {
        assert(s == first);
        assert forall|i: int| !#[trigger] gap_at(s, i) by {
            if gap_at(s, i) {
                assert(first[i] != ':');
            }
        }
    } else {
        let rest = parts.drop_first();
        assert forall|i: int| 0 <= i < rest.len() implies 1 <= (#[trigger] rest[i]).len() <= 4
            && all_digits(rest[i], 16) by {
            assert(rest[i] == parts[i + 1]);
        }
        lemma_joined_groups(rest);
        let tail = join(rest, ':');
        let n = first.len() as int;
        assert(s == first + seq![':'] + tail);
        assert(s[0] == first[0]);
        assert(s[s.len() - 1] == tail[tail.len() - 1]);
        assert forall|i: int| 0 <= i < s.len() implies #[trigger] s[i] != '.' by {
            if i < n {
                assert(s[i] == first[i]);
            } else if i > n {
                assert(s[i] == tail[i - n - 1]);
            }
        }
        assert forall|i: int| !#[trigger] gap_at(s, i) by {
            if gap_at(s, i) {
                if i < n {
                    assert(s[i] == first[i]);
                } else if i == n {
                    assert(s[i + 1] == tail[0]);
                } else {
                    assert(s[i] == tail[i - n - 1] && s[i + 1] == tail[i - n]);
                    assert(gap_at(tail, i - n - 1));
                }
            }
        }
    }
}

/// Joined groups are read as their segments.
proof fn lemma_groups_are_read(parts: Seq<Seq<char>>, dotted: bool)
    requires
        are_groups(parts),
    ensures
        ipv6_groups(join(parts, ':'), dotted) == Some(group_values(parts)),
{
    let s = join(parts, ':');
    if parts.len() == 0 {
        assert(group_values(parts) =~= seq![]);
    } else {
        lemma_joined_groups(parts);
        assert forall|i: int| 0 <= i < parts.len() implies !holds(#[trigger] parts[i], ':') by {
            assert(all_digits(parts[i], 16));
            if holds(parts[i], ':') {
                let j = choose|j: int| 0 <= j < parts[i].len() && parts[i][j] == ':';
                assert(hex_value(parts[i][j]) is Some);
            }
        }
        lemma_split_of_join(parts, ':');
        let front = parts.drop_last();
        assert forall|i: int| 0 <= i < front.len() implies hex_group(#[trigger] front[i]) is Some by {
            assert(front[i] == parts[i]);
            assert(1 <= parts[i].len() <= 4 && all_digits(parts[i], 16));
        }
        let last = parts[parts.len() - 1];
        assert(1 <= last.len() <= 4 && all_digits(last, 16));
        assert(parts.last() == last);
        assert(ipv6_groups(s, dotted)->0 =~= group_values(parts));
    }
}

/// A text without a dot is no IPv4 literal.
proof fn lemma_no_dot_no_v4(s: Seq<char>)
    requires
        forall|i: int| 0 <= i < s.len() ==> #[trigger] s[i] != '.',
    ensures
        ipv4_literal(s) is None,
{
    law_split_cuts_at_the_separator(s, seq![], '.');
}

/// Eight groups with colons between them are the literal of their segments.
pub proof fn law_eight_groups_are_read(parts: Seq<Seq<char>>)
    requires
        are_groups(parts),
        parts.len() == 8,
    ensures
        ip_literal(join(parts, ':')) == Some(IpView::V6(group_values(parts))),
{
    let s = join(parts, ':');
    lemma_joined_groups(parts);
    lemma_groups_are_read(parts, true);
    lemma_no_dot_no_v4(s);
    assert forall|k: int| !first_gap(s, k) by {
        assert(!gap_at(s, k));
    }
}

/// `::` stands for as many zero segments as are missing to eight, at least one,
/// wherever it stands.
pub proof fn law_a_gap_fills_up_with_zeros(a: Seq<Seq<char>>, b: Seq<Seq<char>>)
    requires
        are_groups(a),
        are_groups(b),
        a.len() + b.len() <= 7,
    ensures
        ip_literal(join(a, ':') + seq![':', ':'] + join(b, ':')) == Some(
            IpView::V6(
                group_values(a) + Seq::new((8 - a.len() - b.len()) as nat, |i: int| 0u16)
                    + group_values(b),
            ),
        ),
{
    let (p, q) = (join(a, ':'), join(b, ':'));
    let s = p + seq![':', ':'] + q;
    let k = p.len() as int;
    lemma_groups_are_read(a, false);
    lemma_groups_are_read(b, true);
    if a.len() > 0 {
        lemma_joined_groups(a);
    }
    if b.len() > 0 {
        lemma_joined_groups(b);
    }
    assert forall|i: int| 0 <= i < s.len() implies #[trigger] s[i] != '.' by {
        if i < k {
            assert(s[i] == p[i]);
        } else if i >= k + 2 {
            assert(s[i] == q[i - k - 2]);
        }
    }
    lemma_no_dot_no_v4(s);
    assert(s[k] == ':' && s[k + 1] == ':');
    assert(gap_at(s, k));
    assert forall|j: int| 0 <= j < k implies !#[trigger] gap_at(s, j) by {
        assert(s[j] == p[j]);
        if j + 1 < k {
            assert(s[j + 1] == p[j + 1]);
            assert(!gap_at(p, j));
        } else {
            assert(p[p.len() - 1] != ':');
        }
    }
    assert(first_gap(s, k));
    assert forall|j: int| first_gap(s, j) implies j == k by {
        if j < k {
            assert(!gap_at(s, j));
        } else if k < j {
            assert(!gap_at(s, k));
        }
    }
    assert(s.take(k) =~= p);
    assert(s.skip(k + 2) =~= q);
    assert(group_values(a).len() == a.len() && group_values(b).len() == b.len());
}

/// A hexadecimal digit more makes a group's value sixteen times as large, plus the
/// digit, of either case.
pub proof fn law_group_digits_have_their_place(p: Seq<char>, c: char)
    ensures
        digits_value(seq![], 16) == 0,
        '0' <= c <= '9' ==> digits_value(p.push(c), 16) == 16 * digits_value(p, 16) + (c as int
            - '0' as int),
        'a' <= c <= 'f' ==> digits_value(p.push(c), 16) == 16 * digits_value(p, 16) + (c as int
            - 'a' as int + 10),
        'A' <= c <= 'F' ==> digits_value(p.push(c), 16) == 16 * digits_value(p, 16) + (c as int
            - 'A' as int + 10),
{
    assert(p.push(c).drop_last() =~= p);
}

/// What is parsed is the literal's address, call for call.
pub proof fn law_parsing_gives_the_literal(s: &[char], out: Option<IpAddr>)
    requires
        call_ensures(parse_ip, (s,), out),
    ensures
        out is Some <==> ip_literal(s@) is Some,
        out matches Some(ip) ==> ip_literal(s@) == Some(ip@),
{
}

} // verus!
