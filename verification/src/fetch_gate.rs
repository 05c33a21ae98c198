//! The outbound fetch gate: decides whether a `network:fetch` plugin's outbound
//! HTTP request is allowed.
//!
//! - The scheme must be `https`.
//! - The host must be covered by the plugin's declared origin allowlist: an exact
//!   match or a `*.suffix` wildcard, ignoring case. An empty allowlist denies
//!   everything.
//! - A host that is an IP literal must not be a private, loopback, link-local,
//!   multicast or cloud-metadata address, and `localhost` names are refused. A
//!   literal of either family is looked at in brackets too, as a URI writes IPv6.
//!
//! A DNS host name passes the address check: resolving it would be network I/O,
//! and the allowlist already bounds which hosts can be reached.
use crate::ip_literal::{
    ip_literal, lemma_bracketed_text_is_no_literal, parse_ip, IpAddr, IpView, Ipv4Addr, Ipv6Addr,
};
use crate::text::{
    chars_end_in, chars_eq, chars_of, ends_in, eq_ignoring_case, lower, lower_chars,
    same_ignoring_case, slice_chars,
};
use vstd::prelude::*;

verus! {

/// Why an outbound request was refused.
#[derive(Debug, Clone, Copy, PartialEq, Eq, Structural)]
pub enum FetchDenial {
    /// The scheme was not `https`.
    SchemeBlocked,
    /// The host is not covered by the plugin's origin allowlist.
    OriginBlocked,
    /// The host names a loopback host or is an IP literal in the block set.
    AddressBlocked,
}

/// The refused IPv4 addresses: `0.0.0.0/8`, `10.0.0.0/8`, `100.64.0.0/10`,
/// `127.0.0.0/8`, `169.254.0.0/16`, `172.16.0.0/12`, `192.168.0.0/16`, multicast
/// (`224.0.0.0/4`) and `255.255.255.255`.
pub open spec fn blocked_v4(o: Seq<u8>) -> bool {
    ||| o[0] == 0
    ||| o[0] == 10
    ||| o[0] == 100 && 64 <= o[1] <= 127
    ||| o[0] == 127
    ||| o[0] == 169 && o[1] == 254
    ||| o[0] == 172 && 16 <= o[1] <= 31
    ||| o[0] == 192 && o[1] == 168
    ||| 224 <= o[0] <= 239
    ||| o[0] == 255 && o[1] == 255 && o[2] == 255 && o[3] == 255
}

/// Whether segments form an IPv4-mapped address, `::ffff:a.b.c.d`.
pub open spec fn is_v4_mapped(g: Seq<u16>) -> bool {
    &&& g[0] == 0 && g[1] == 0 && g[2] == 0 && g[3] == 0 && g[4] == 0
    &&& g[5] == 0xffff
}

/// The IPv4 octets in the last two segments.
pub open spec fn embedded_v4(g: Seq<u16>) -> Seq<u8> {
    seq![(g[6] / 256) as u8, (g[6] % 256) as u8, (g[7] / 256) as u8, (g[7] % 256) as u8]
}

/// The refused IPv6 addresses: `::`, `::1`, multicast (`ff00::/8`), a mapped
/// IPv4 address that is refused, unique-local (`fc00::/7`) and link-local
/// (`fe80::/10`).
pub open spec fn blocked_v6(g: Seq<u16>) -> bool {
    ||| g[0] == 0 && g[1] == 0 && g[2] == 0 && g[3] == 0 && g[4] == 0 && g[5] == 0 && g[6] == 0
        && g[7] <= 1
    ||| 0xff00 <= g[0]
    ||| is_v4_mapped(g) && blocked_v4(embedded_v4(g))
    ||| 0xfc00 <= g[0] <= 0xfdff
    ||| 0xfe80 <= g[0] <= 0xfebf
}

/// The refused addresses of both families.
pub open spec fn blocked(ip: IpView) -> bool {
    match ip {
        IpView::V4(o) => blocked_v4(o),
        IpView::V6(g) => blocked_v6(g),
    }
}

fn is_blocked_v4(v4: Ipv4Addr) -> (r: bool)
    ensures
        r == blocked_v4(v4.octets@),
{
    let o = v4.octets;
    let (b0, b1, b2, b3): (u8, u8, u8, u8) = (o[0], o[1], o[2], o[3]);
    // Loopback, link-local, multicast, unspecified and broadcast addresses.
    if b0 == 127 || (b0 == 169 && b1 == 254) || (224 <= b0 && b0 <= 239) || (b0 == 0 && b1 == 0
        && b2 == 0 && b3 == 0) || (b0 == 255 && b1 == 255 && b2 == 255 && b3 == 255) {
        return true;
    }
    if b0 == 0 {
        return true;  // 0.0.0.0/8 "this host"
    }
    if b0 == 10 {
        return true;  // 10.0.0.0/8
    }
    if b0 == 100 && 64 <= b1 && b1 <= 127 {
        return true;  // 100.64.0.0/10 carrier-grade NAT
    }
    if b0 == 172 && 16 <= b1 && b1 <= 31 {
        return true;  // 172.16.0.0/12
    }
    if b0 == 192 && b1 == 168 {
        return true;  // 192.168.0.0/16
    }
    false
}

fn is_blocked_v6(v6: Ipv6Addr) -> (r: bool)
    ensures
        r == blocked_v6(v6.segments@),
{
    let g = v6.segments;
    let leading_zero = g[0] == 0 && g[1] == 0 && g[2] == 0 && g[3] == 0 && g[4] == 0;
    if leading_zero && g[5] == 0 && g[6] == 0 && g[7] <= 1 {
        return true;  // unspecified and loopback
    }
    if g[0] >= 0xff00 {
        return true;  // multicast
    }
    if leading_zero && g[5] == 0xffff {
        let octets: [u8; 4] = [
            (g[6] / 256) as u8,
            (g[6] % 256) as u8,
            (g[7] / 256) as u8,
            (g[7] % 256) as u8,
        ];
        assert(octets@ =~= embedded_v4(g@));
        return is_blocked_v4(Ipv4Addr { octets });
    }
    if 0xfc00 <= g[0] && g[0] <= 0xfdff {
        return true;  // fc00::/7 unique-local
    }
    if 0xfe80 <= g[0] && g[0] <= 0xfebf {
        return true;  // fe80::/10 link-local
    }
    false
}

/// True when `ip` is not a public, routable address: the set that
/// `network:fetch` refuses.
pub fn is_blocked_address(ip: IpAddr) -> (r: bool)
    ensures
        r == blocked(ip@),
{
    match ip {
        IpAddr::V4(v4) => is_blocked_v4(v4),
        IpAddr::V6(v6) => is_blocked_v6(v6),
    }
}

/// Whether one allowlist entry covers a host: `example.com` covers exactly that
/// host; `*.example.com` covers `example.com` and every sub-domain of it.
pub open spec fn origin_covers(origin: Seq<char>, host: Seq<char>) -> bool {
    let entry = lower(origin);
    let name = lower(host);
    ||| entry == name
    ||| entry.len() >= 2 && entry[0] == '*' && entry[1] == '.' && (name == entry.skip(2) || ends_in(
        name,
        seq!['.'] + entry.skip(2),
    ))
}

/// Whether some entry of the allowlist covers the host.
pub open spec fn origin_listed(host: Seq<char>, allowlist: Seq<String>) -> bool {
    exists|i: int| 0 <= i < allowlist.len() && origin_covers(#[trigger] allowlist[i]@, host)
}

/// True when `host` (no scheme or path) is covered by `allowlist`. Matching
/// ignores ASCII case. An empty allowlist covers nothing.
pub fn origin_allowed(host: &str, allowlist: &[String]) -> (r: bool)
    ensures
        r == origin_listed(host@, allowlist@),
{
    let name = lower_chars(host);
    let mut i: usize = 0;
    while i < allowlist.len()
        invariant
            i <= allowlist.len(),
            name@ == lower(host@),
            forall|j: int| 0 <= j < i ==> !origin_covers(#[trigger] allowlist@[j]@, host@),
        decreases allowlist.len() - i,
    {
        let entry = lower_chars(allowlist[i].as_str());
        if chars_eq(entry.as_slice(), name.as_slice()) {
            assert(origin_covers(allowlist@[i as int]@, host@));
            return true;
        }
        if entry.len() >= 2 && entry[0] == '*' && entry[1] == '.' {
            let suffix = slice_chars(entry.as_slice(), 2, entry.len());
            let dotted = slice_chars(entry.as_slice(), 1, entry.len());
            assert(suffix@ =~= entry@.skip(2));
            assert(dotted@ =~= seq!['.'] + entry@.skip(2));
            if chars_eq(name.as_slice(), suffix.as_slice()) || chars_end_in(
                name.as_slice(),
                dotted.as_slice(),
            ) {
                assert(origin_covers(allowlist@[i as int]@, host@));
                return true;
            }
        }
        assert(!origin_covers(allowlist@[i as int]@, host@));
        i += 1;
    }
    false
}

/// Whether a host names the local machine: `localhost` or a name under it.
pub open spec fn is_local_name(host: Seq<char>) -> bool {
    lower(host) == "localhost"@ || ends_in(lower(host), ".localhost"@)
}

/// A host without the brackets round it. A URI puts them round an IPv6 literal;
/// they are taken off whatever stands in them, so that an IPv4 literal in brackets
/// is seen as one too. A host that does not stand in brackets stays as it is.
pub open spec fn unbracketed(host: Seq<char>) -> Seq<char> {
    if host.len() >= 2 && host[0] == '[' && host.last() == ']' {
        host.subrange(1, host.len() - 1)
    } else {
        host
    }
}

/// Takes one pair of brackets off a host.
fn strip_brackets(host: &[char]) -> (inner: Vec<char>)
    ensures
        inner@ == unbracketed(host@),
{
    let n: usize = host.len();
    if n >= 2 && host[0] == '[' && host[n - 1] == ']' {
        slice_chars(host, 1, n - 1)
    } else {
        let inner = slice_chars(host, 0, n);
        assert(inner@ =~= host@);
        inner
    }
}

/// Whether a host is an IPv4 or IPv6 literal, in brackets or not, that is refused.
pub open spec fn is_blocked_literal(host: Seq<char>) -> bool {
    ip_literal(unbracketed(host)) is Some && blocked(ip_literal(unbracketed(host))->0)
}

/// What is decided on a request. The checks run in this order: scheme, origin, address.
pub open spec fn gate(scheme: Seq<char>, host: Seq<char>, allowlist: Seq<String>) -> Result<
    (),
    FetchDenial,
> {
    if !same_ignoring_case(scheme, "https"@) {
        Err(FetchDenial::SchemeBlocked)
    } else if !origin_listed(host, allowlist) {
        Err(FetchDenial::OriginBlocked)
    } else if is_local_name(host) || is_blocked_literal(host) {
        Err(FetchDenial::AddressBlocked)
    } else {
        Ok(())
    }
}

/// Runs the full gate for an outbound request.
pub fn check_request(scheme: &str, host: &str, allowlist: &[String]) -> (r: Result<(), FetchDenial>)
    ensures
        r == gate(scheme@, host@, allowlist@),
{
    if !eq_ignoring_case(scheme, "https") {
        return Err(FetchDenial::SchemeBlocked);
    }
    if !origin_allowed(host, allowlist) {
        return Err(FetchDenial::OriginBlocked);
    }
    let name = lower_chars(host);
    if chars_eq(name.as_slice(), chars_of("localhost").as_slice()) || chars_end_in(
        name.as_slice(),
        chars_of(".localhost").as_slice(),
    ) {
        return Err(FetchDenial::AddressBlocked);
    }
    let inner = strip_brackets(chars_of(host).as_slice());
    if let Some(ip) = parse_ip(inner.as_slice()) {
        if is_blocked_address(ip) {
            return Err(FetchDenial::AddressBlocked);
        }
    }
    Ok(())
}

/// An empty allowlist covers no host, so every request is refused.
pub proof fn law_empty_allowlist_denies_all(scheme: Seq<char>, host: Seq<char>)
    ensures
        !origin_listed(host, Seq::<String>::empty()),
        gate(scheme, host, Seq::<String>::empty()) is Err,
{
}

/// A request that is let through goes over https to a listed origin that is
/// neither a local name nor a refused address, as it stands or inside brackets.
pub proof fn law_passed_request(scheme: Seq<char>, host: Seq<char>, allowlist: Seq<String>)
    requires
        gate(scheme, host, allowlist) is Ok,
    ensures
        lower(scheme) == lower("https"@),
        origin_listed(host, allowlist),
        !is_local_name(host),
        ip_literal(host) is Some ==> !blocked(ip_literal(host)->0),
        ip_literal(unbracketed(host)) is Some ==> !blocked(ip_literal(unbracketed(host))->0),
{
    if unbracketed(host) != host {
        lemma_bracketed_text_is_no_literal(host);
    }
}

/// An IPv4 or IPv6 literal in brackets is refused exactly where the bare literal
/// is.
pub proof fn law_brackets_hide_no_address(literal: Seq<char>)
    requires
        ip_literal(literal) is Some,
    ensures
        is_blocked_literal(seq!['['] + literal + seq![']']) == blocked(ip_literal(literal)->0),
        is_blocked_literal(literal) == blocked(ip_literal(literal)->0),
{
    let host = seq!['['] + literal + seq![']'];
    assert(unbracketed(host) =~= literal);
    if unbracketed(literal) != literal {
        lemma_bracketed_text_is_no_literal(literal);
    }
}

/// An IPv4-mapped IPv6 address is refused exactly where the embedded IPv4
/// address is.
pub proof fn law_mapped_address_follows_v4(a: Seq<u8>)
    requires
        a.len() == 4,
    ensures
        ({
            let g = seq![
                0u16,
                0u16,
                0u16,
                0u16,
                0u16,
                0xffffu16,
                (a[0] * 256 + a[1]) as u16,
                (a[2] * 256 + a[3]) as u16,
            ];
            blocked(IpView::V6(g)) == blocked(IpView::V4(a))
        }),
{
    let g = seq![
        0u16,
        0u16,
        0u16,
        0u16,
        0u16,
        0xffffu16,
        (a[0] * 256 + a[1]) as u16,
        (a[2] * 256 + a[3]) as u16,
    ];
    assert(embedded_v4(g) =~= a);
}

/// Origin matching ignores the ASCII case of the host.
pub proof fn law_origin_ignores_host_case(a: Seq<char>, b: Seq<char>, allowlist: Seq<String>)
    requires
        same_ignoring_case(a, b),
    ensures
        origin_listed(a, allowlist) == origin_listed(b, allowlist),
{
    if origin_listed(a, allowlist) {
        let i = choose|i: int|
            0 <= i < allowlist.len() && origin_covers(#[trigger] allowlist[i]@, a);
        assert(origin_covers(allowlist[i]@, b));
    }
    if origin_listed(b, allowlist) {
        let i = choose|i: int|
            0 <= i < allowlist.len() && origin_covers(#[trigger] allowlist[i]@, b);
        assert(origin_covers(allowlist[i]@, a));
    }
}

/// A wildcard entry covers its bare suffix and every name below it.
pub proof fn law_wildcard_covers_subdomains(suffix: Seq<char>, label: Seq<char>)
    ensures
        origin_covers(seq!['*', '.'] + suffix, suffix),
        origin_covers(seq!['*', '.'] + suffix, label + seq!['.'] + suffix),
{
    let entry = lower(seq!['*', '.'] + suffix);
    assert(entry.skip(2) =~= lower(suffix));
    let host = label + seq!['.'] + suffix;
    let name = lower(host);
    let want = seq!['.'] + entry.skip(2);
    assert(name.skip(name.len() - want.len()) =~= want);
}

/// An entry without a wildcard covers only the same name.
pub proof fn law_exact_entry_covers_itself_only(origin: Seq<char>, host: Seq<char>)
    requires
        origin.len() < 2 || origin[0] != '*' || origin[1] != '.',
    ensures
        origin_covers(origin, host) == same_ignoring_case(origin, host),
{
    let entry = lower(origin);
    if entry.len() >= 2 {
        assert(entry[0] == crate::text::lower_char(origin[0]));
        assert(entry[1] == crate::text::lower_char(origin[1]));
    }
}

/// The refused IPv4 addresses, as ranges of 32-bit numbers.
pub proof fn law_refused_v4_ranges(o: Seq<u8>)
    requires
        o.len() == 4,
    ensures
        ({
            let n = o[0] * 0x100_0000 + o[1] * 0x1_0000 + o[2] * 0x100 + o[3];
            blocked(IpView::V4(o)) <==> {
                ||| n <= 0x00ff_ffff
                ||| 0x0a00_0000 <= n <= 0x0aff_ffff
                ||| 0x6440_0000 <= n <= 0x647f_ffff
                ||| 0x7f00_0000 <= n <= 0x7fff_ffff
                ||| 0xa9fe_0000 <= n <= 0xa9fe_ffff
                ||| 0xac10_0000 <= n <= 0xac1f_ffff
                ||| 0xc0a8_0000 <= n <= 0xc0a8_ffff
                ||| 0xe000_0000 <= n <= 0xefff_ffff
                ||| n == 0xffff_ffff
            }
        }),
{
}

/// The refused IPv6 addresses, by their leading bits: `::/127`, `ff00::/8`,
/// `fc00::/7`, `fe80::/10`, and those that embed a refused IPv4 address.
pub proof fn law_refused_v6_prefixes(g: Seq<u16>)
    requires
        g.len() == 8,
    ensures
        ({
            let zero = g[0] == 0 && g[1] == 0 && g[2] == 0 && g[3] == 0 && g[4] == 0;
            blocked(IpView::V6(g)) <==> {
                ||| zero && g[5] == 0 && g[6] == 0 && g[7] / 2 == 0
                ||| g[0] / 0x100 == 0xff
                ||| g[0] / 0x200 == 0x7e
                ||| g[0] / 0x40 == 0x3fa
                ||| zero && g[5] == 0xffff && blocked(
                    IpView::V4(
                        seq![
                            (g[6] / 256) as u8,
                            (g[6] % 256) as u8,
                            (g[7] / 256) as u8,
                            (g[7] % 256) as u8,
                        ],
                    ),
                )
            }
        }),
{
}

/// A request passes exactly where its scheme is `https`, its host is listed, and
/// the host is no local name and no refused literal. A refusal names the first of
/// these that fails.
pub proof fn law_request_is_decided_in_order(
    scheme: Seq<char>,
    host: Seq<char>,
    allowlist: Seq<String>,
)
    ensures
        ({
            let https = same_ignoring_case(scheme, "https"@);
            let listed = origin_listed(host, allowlist);
            let local = lower(host) == "localhost"@ || (lower(host).len() >= 10 && lower(
                host,
            ).skip(lower(host).len() - 10) == ".localhost"@);
            let literal = if host.len() >= 2 && host[0] == '[' && host[host.len() - 1] == ']' {
                ip_literal(host.subrange(1, host.len() - 1))
            } else {
                ip_literal(host)
            };
            let refused = literal is Some && blocked(literal->0);
            &&& gate(scheme, host, allowlist) is Ok <==> https && listed && !local && !refused
            &&& !https ==> gate(scheme, host, allowlist) == Err::<(), FetchDenial>(
                FetchDenial::SchemeBlocked,
            )
            &&& https && !listed ==> gate(scheme, host, allowlist) == Err::<(), FetchDenial>(
                FetchDenial::OriginBlocked,
            )
            &&& https && listed && (local || refused) ==> gate(scheme, host, allowlist) == Err::<
                (),
                FetchDenial,
            >(FetchDenial::AddressBlocked)
        }),
{
    reveal_strlit(".localhost");
    assert(".localhost"@.len() == 10);
}

/// An allowlist covers what one of its entries covers: it is the union of its
/// parts, and a single entry covers just what it says.
pub proof fn law_allowlist_is_the_union_of_its_entries(
    host: Seq<char>,
    a: Seq<String>,
    b: Seq<String>,
    entry: String,
)
    ensures
        origin_listed(host, a + b) <==> origin_listed(host, a) || origin_listed(host, b),
        origin_listed(host, seq![entry]) <==> origin_covers(entry@, host),
{
    let all = a + b;
    if origin_listed(host, a) {
        let i = choose|i: int| 0 <= i < a.len() && origin_covers(#[trigger] a[i]@, host);
        assert(origin_covers(all[i]@, host));
    }
    if origin_listed(host, b) {
        let i = choose|i: int| 0 <= i < b.len() && origin_covers(#[trigger] b[i]@, host);
        assert(origin_covers(all[a.len() + i]@, host));
    }
    if origin_listed(host, all) {
        let i = choose|i: int| 0 <= i < all.len() && origin_covers(#[trigger] all[i]@, host);
        if i < a.len() {
            assert(origin_covers(a[i]@, host));
        } else {
            assert(origin_covers(b[i - a.len()]@, host));
        }
    }
    let one = seq![entry];
    assert(one[0] == entry);
    if origin_covers(entry@, host) {
        assert(origin_covers(one[0]@, host));
    }
}

/// A wildcard entry covers no more than its bare suffix, the names that end in a
/// dot and the suffix, and itself as written.
pub proof fn law_wildcard_covers_no_more(suffix: Seq<char>, host: Seq<char>)
    requires
        origin_covers(seq!['*', '.'] + suffix, host),
    ensures
        lower(host) == lower(suffix) || lower(host) == lower(seq!['*', '.'] + suffix) || (lower(
            host,
        ).len() > lower(suffix).len() && lower(host).skip(
            lower(host).len() - lower(suffix).len() - 1,
        ) == seq!['.'] + lower(suffix)),
{
    let entry = lower(seq!['*', '.'] + suffix);
    assert(entry.skip(2) =~= lower(suffix));
}

/// What a check answers is the decision on the request.
pub proof fn law_check_answers_the_decision(
    scheme: &str,
    host: &str,
    allowlist: &[String],
    r: Result<(), FetchDenial>,
)
    requires
        call_ensures(check_request, (scheme, host, allowlist), r),
    ensures
        r == gate(scheme@, host@, allowlist@),
{
}

} // verus!
