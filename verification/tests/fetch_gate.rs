use hellohq_wasm_runtime::fetch_gate::{
    check_request, is_blocked_address, origin_allowed, FetchDenial,
};
use hellohq_wasm_runtime::ip_literal::{parse_ip, IpAddr};
use hellohq_wasm_runtime::text::chars_of;

fn ip(s: &str) -> IpAddr {
    parse_ip(&chars_of(s)).unwrap()
}

#[test]
fn metadata_endpoint_blocked() {
    assert!(is_blocked_address(ip("169.254.169.254")));
}

#[test]
fn loopback_blocked() {
    assert!(is_blocked_address(ip("127.0.0.1")));
    assert!(is_blocked_address(ip("::1")));
}

#[test]
fn private_ranges_blocked() {
    assert!(is_blocked_address(ip("10.0.0.5")));
    assert!(is_blocked_address(ip("192.168.1.1")));
    assert!(is_blocked_address(ip("172.16.0.1")));
    assert!(is_blocked_address(ip("100.64.0.1"))); // CGNAT
}

#[test]
fn extra_v4_edges_blocked() {
    assert!(is_blocked_address(ip("0.0.0.0")));
    assert!(is_blocked_address(ip("169.254.0.1"))); // link-local
    assert!(is_blocked_address(ip("255.255.255.255"))); // broadcast
    assert!(is_blocked_address(ip("172.31.255.255"))); // top of /12
}

#[test]
fn v6_ula_blocked() {
    assert!(is_blocked_address(ip("fd00::1"))); // fc00::/7 ULA
    assert!(is_blocked_address(ip("fe80::1"))); // link-local
    assert!(is_blocked_address(ip("::"))); // unspecified
}

#[test]
fn v4_mapped_blocked() {
    assert!(is_blocked_address(ip("::ffff:127.0.0.1")));
    assert!(is_blocked_address(ip("::ffff:10.0.0.1")));
}

#[test]
fn public_addresses_allowed() {
    assert!(!is_blocked_address(ip("8.8.8.8")));
    assert!(!is_blocked_address(ip("1.1.1.1")));
    // A public v4-mapped is fine.
    assert!(!is_blocked_address(ip("::ffff:8.8.8.8")));
}

#[test]
fn just_outside_private_ranges_allowed() {
    assert!(!is_blocked_address(ip("11.0.0.1")));
    assert!(!is_blocked_address(ip("172.32.0.1"))); // just past /12
    assert!(!is_blocked_address(ip("100.128.0.1"))); // just past CGNAT /10
    assert!(!is_blocked_address(ip("192.169.0.1")));
}

#[test]
fn multicast_and_edges_of_v6_blocks() {
    assert!(is_blocked_address(ip("224.0.0.1")));
    assert!(is_blocked_address(ip("239.255.255.255")));
    assert!(!is_blocked_address(ip("240.0.0.1")));
    assert!(is_blocked_address(ip("ff02::1")));
    assert!(is_blocked_address(ip("febf::1")));
    assert!(!is_blocked_address(ip("fec0::1")));
    assert!(!is_blocked_address(ip("fbff::1")));
    assert!(!is_blocked_address(ip("2606:4700::1111")));
}

#[test]
fn ip_literals_agree_with_the_standard_grammar() {
    for (text, octets) in [
        ("1.2.3.4", [1, 2, 3, 4]),
        ("255.255.255.255", [255; 4]),
        ("0.0.0.0", [0; 4]),
    ] {
        match parse_ip(&chars_of(text)) {
            Some(IpAddr::V4(a)) => assert_eq!(a.octets, octets, "{text}"),
            other => panic!("{text}: {other:?}"),
        }
    }
    for (text, segments) in [
        ("::", [0, 0, 0, 0, 0, 0, 0, 0]),
        ("::1", [0, 0, 0, 0, 0, 0, 0, 1]),
        ("1::", [1, 0, 0, 0, 0, 0, 0, 0]),
        ("1::2", [1, 0, 0, 0, 0, 0, 0, 2]),
        ("1:2:3:4:5:6:7:8", [1, 2, 3, 4, 5, 6, 7, 8]),
        ("1:2:3:4:5:6:7::", [1, 2, 3, 4, 5, 6, 7, 0]),
        ("::2:3:4:5:6:7:8", [0, 2, 3, 4, 5, 6, 7, 8]),
        ("::ffff:1.2.3.4", [0, 0, 0, 0, 0, 0xffff, 0x0102, 0x0304]),
        ("64:ff9b::1.2.3.4", [0x64, 0xff9b, 0, 0, 0, 0, 0x0102, 0x0304]),
        ("1:2:3:4:5:6:1.2.3.4", [1, 2, 3, 4, 5, 6, 0x0102, 0x0304]),
        ("ABCD:ef01::", [0xabcd, 0xef01, 0, 0, 0, 0, 0, 0]),
    ] {
        match parse_ip(&chars_of(text)) {
            Some(IpAddr::V6(a)) => assert_eq!(a.segments, segments, "{text}"),
            other => panic!("{text}: {other:?}"),
        }
    }
    for text in [
        "256.1.1.1",
        "01.2.3.4",
        "1.2.3",
        "1.2.3.4.5",
        "1.2.3.",
        " 1.2.3.4",
        "1..2.3",
        "1:2:3:4:5:6:7:8::",
        "1:2:3:4:5:6:7:8:9",
        "1:2:3:4:5:6:7",
        ":1:2",
        "1::2::3",
        ":::",
        "1:::2",
        "1:2:3:4:5:6:7:1.2.3.4",
        "1.2.3.4::",
        "::1.2.3.4:5",
        "::12345",
        "::g",
        "fe80::1%eth0",
        "[::1]",
        "",
        ":",
        "example.com",
    ] {
        assert!(parse_ip(&chars_of(text)).is_none(), "{text}");
    }
}

#[test]
fn origin_exact_match() {
    let allow = vec!["api.example.com".to_string()];
    assert!(origin_allowed("api.example.com", &allow));
    assert!(origin_allowed("API.EXAMPLE.COM", &allow)); // case-insensitive
    assert!(!origin_allowed("evil.example.com", &allow));
    assert!(!origin_allowed("xapi.example.com", &allow));
}

#[test]
fn origin_wildcard_match() {
    let allow = vec!["*.example.com".to_string()];
    assert!(origin_allowed("example.com", &allow)); // bare suffix
    assert!(origin_allowed("api.example.com", &allow));
    assert!(origin_allowed("a.b.example.com", &allow));
    assert!(!origin_allowed("example.org", &allow));
    assert!(!origin_allowed("notexample.com", &allow));
}

#[test]
fn empty_allowlist_denies_all() {
    assert!(!origin_allowed("api.example.com", &[]));
}

#[test]
fn origin_entries_ignore_case_and_any_may_match() {
    let allow = vec!["x.org".to_string(), "*.EXAMPLE.com".to_string()];
    assert!(origin_allowed("Api.Example.COM", &allow));
    assert!(origin_allowed("X.ORG", &allow));
    assert!(!origin_allowed("y.x.org", &allow));
    assert!(!origin_allowed("*", &allow));
}

#[test]
fn check_request_https_only() {
    let allow = vec!["api.example.com".to_string()];
    assert_eq!(
        check_request("http", "api.example.com", &allow),
        Err(FetchDenial::SchemeBlocked)
    );
    assert!(check_request("https", "api.example.com", &allow).is_ok());
}

#[test]
fn check_request_origin_block() {
    let allow = vec!["api.example.com".to_string()];
    assert_eq!(
        check_request("https", "evil.example.com", &allow),
        Err(FetchDenial::OriginBlocked)
    );
}

#[test]
fn check_request_ssrf_literal_block() {
    // An allowlisted host that is itself a blocked IP literal.
    let allow = vec!["169.254.169.254".to_string()];
    assert_eq!(
        check_request("https", "169.254.169.254", &allow),
        Err(FetchDenial::AddressBlocked)
    );
    let allow_lo = vec!["127.0.0.1".to_string()];
    assert_eq!(
        check_request("https", "127.0.0.1", &allow_lo),
        Err(FetchDenial::AddressBlocked)
    );
}

#[test]
fn check_request_localhost_block() {
    let allow = vec!["localhost".to_string()];
    assert_eq!(
        check_request("https", "localhost", &allow),
        Err(FetchDenial::AddressBlocked)
    );
}

#[test]
fn check_request_public_literal_allowed() {
    let allow = vec!["8.8.8.8".to_string()];
    assert!(check_request("https", "8.8.8.8", &allow).is_ok());
}

#[test]
fn check_request_order_and_local_names() {
    // The scheme is checked before the origin, the origin before the address.
    assert_eq!(
        check_request("http", "127.0.0.1", &[]),
        Err(FetchDenial::SchemeBlocked)
    );
    assert_eq!(
        check_request("HTTPS", "127.0.0.1", &[]),
        Err(FetchDenial::OriginBlocked)
    );
    let allow = vec!["*.LocalHost".to_string(), "::1".to_string()];
    assert_eq!(
        check_request("https", "API.localhost", &allow),
        Err(FetchDenial::AddressBlocked)
    );
    assert_eq!(
        check_request("https", "::1", &allow),
        Err(FetchDenial::AddressBlocked)
    );
    let near = vec!["notlocalhost".to_string()];
    assert!(check_request("https", "notlocalhost", &near).is_ok());
}

#[test]
fn check_request_looks_inside_brackets() {
    let hosts = ["[::1]", "[fe80::1]", "[fd00::1]", "[::ffff:127.0.0.1]", "[127.0.0.1]"];
    let allow: Vec<String> = hosts.iter().map(|h| h.to_string()).collect();
    for host in hosts {
        assert_eq!(
            check_request("https", host, &allow),
            Err(FetchDenial::AddressBlocked)
        );
    }
    assert_eq!(
        check_request("https", "[::1]", &["::1".to_string()]),
        Err(FetchDenial::OriginBlocked)
    );
    // One pair of brackets is taken off, and only a whole pair.
    for host in ["[2606:4700:4700::1111]", "[[::1]]", "[::1", "::1]", "[", "[]"] {
        assert_eq!(check_request("https", host, &[host.to_string()]), Ok(()));
    }
}
