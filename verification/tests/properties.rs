use trusted_proxies::bare_address;
use trusted_proxies::unquote;
use trusted_proxies::Config;
use trusted_proxies::IpAddress;
use trusted_proxies::RequestData;
use trusted_proxies::Trusted;

fn v4(a: u8, b: u8, c: u8, d: u8) -> IpAddress {
    IpAddress::from_v4_octets(a, b, c, d)
}

fn v6(groups: [u16; 8]) -> IpAddress {
    IpAddress::from_v6_groups(groups)
}

#[test]
fn forwarded_chain_last_untrusted_wins() {
    let mut request = RequestData::new();
    request.forwarded = vec!["for=1.2.3.4, for=5.6.7.8".to_string()];

    let config = Config::default();
    let trusted = Trusted::from(v4(127, 0, 0, 1), &request, &config);
    assert_eq!(trusted.ip(), v4(5, 6, 7, 8));

    let mut config = Config::default();
    config.add_trusted_ip("5.6.7.8").unwrap();
    let trusted = Trusted::from(v4(127, 0, 0, 1), &request, &config);
    assert_eq!(trusted.ip(), v4(1, 2, 3, 4));
}

#[test]
fn x_forwarded_for_chain_last_untrusted_wins() {
    let mut request = RequestData::new();
    request.x_forwarded_for = vec!["1.1.1.1, 8.8.8.8".to_string()];

    let config = Config::default();
    let trusted = Trusted::from(v4(192, 168, 2, 60), &request, &config);
    assert_eq!(trusted.ip(), v4(8, 8, 8, 8));

    let mut config = Config::default();
    config.add_trusted_ip("8.8.8.8").unwrap();
    let trusted = Trusted::from(v4(192, 168, 2, 60), &request, &config);
    assert_eq!(trusted.ip(), v4(1, 1, 1, 1));
}

#[test]
fn x_forwarded_host_takes_last_value_without_walking() {
    let mut request = RequestData::new();
    request.x_forwarded_host = vec!["first.com, example.com".to_string()];

    let mut config = Config::default();
    config.trust_x_forwarded_host();

    let trusted = Trusted::from(v4(192, 168, 2, 60), &request, &config);
    assert_eq!(trusted.host(), Some("example.com"));
}

#[test]
fn untrusted_peer_ignores_all_headers() {
    let mut request = RequestData::new();
    request.authority = Some("inner.example".to_string());
    request.scheme = Some("http".to_string());
    request.forwarded = vec!["for=1.2.3.4; proto=https; host=evil.example".to_string()];
    request.x_forwarded_for = vec!["5.6.7.8".to_string()];
    request.x_forwarded_host = vec!["evil.example".to_string()];
    request.x_forwarded_proto = vec!["https".to_string()];
    request.x_forwarded_by = vec!["mallory".to_string()];

    let mut config = Config::default();
    config.trust_x_forwarded_host();
    config.trust_x_forwarded_proto();
    config.trust_x_forwarded_by();

    // 203.0.113.9 is not in the trusted set
    let trusted = Trusted::from(v4(203, 0, 113, 9), &request, &config);
    assert_eq!(trusted.ip(), v4(203, 0, 113, 9));
    assert_eq!(trusted.host(), Some("inner.example"));
    assert_eq!(trusted.scheme(), Some("http"));
    assert_eq!(trusted.by(), None);
}

#[test]
fn all_flags_disabled_falls_back_to_request_data() {
    let mut request = RequestData::new();
    request.authority = Some("inner.example:9000".to_string());
    request.scheme = Some("http".to_string());
    request.forwarded = vec!["for=1.2.3.4; proto=https".to_string()];
    request.x_forwarded_for = vec!["5.6.7.8".to_string()];

    // nothing trusted but the peer's network
    let mut config = Config::new();
    config.add_trusted_ip("127.0.0.0/8").unwrap();

    let trusted = Trusted::from(v4(127, 0, 0, 1), &request, &config);
    assert_eq!(trusted.ip(), v4(127, 0, 0, 1));
    assert_eq!(trusted.host(), Some("inner.example"));
    assert_eq!(trusted.port(), Some(9000));
    assert_eq!(trusted.scheme(), Some("http"));
    assert_eq!(trusted.by(), None);
}

#[test]
fn quoted_bracketed_ipv6_for_value() {
    let mut request = RequestData::new();
    request.forwarded = vec![r#"for="[2001:db8:cafe::17]:4711""#.to_string()];

    let config = Config::default();
    let trusted = Trusted::from(v4(127, 0, 0, 1), &request, &config);
    assert_eq!(trusted.ip(), v6([0x2001, 0x0db8, 0xcafe, 0, 0, 0, 0, 0x17]));
}

#[test]
fn host_and_port_split() {
    let mut request = RequestData::new();
    request.x_forwarded_host = vec!["mydomain.com:8080".to_string()];

    let mut config = Config::default();
    config.trust_x_forwarded_host();

    let trusted = Trusted::from(v4(127, 0, 0, 1), &request, &config);
    assert_eq!(trusted.host_with_port(), Some("mydomain.com:8080"));
    assert_eq!(trusted.host(), Some("mydomain.com"));
    assert_eq!(trusted.port(), Some(8080));

    let mut request = RequestData::new();
    request.x_forwarded_host = vec!["mydomain.com".to_string()];

    let trusted = Trusted::from(v4(127, 0, 0, 1), &request, &config);
    assert_eq!(trusted.host(), Some("mydomain.com"));
    assert_eq!(trusted.port(), None);
}

#[test]
fn port_must_be_a_16_bit_number() {
    let mut config = Config::default();
    config.trust_x_forwarded_host();

    let mut request = RequestData::new();
    request.x_forwarded_host = vec!["h:notaport".to_string()];
    let trusted = Trusted::from(v4(127, 0, 0, 1), &request, &config);
    assert_eq!(trusted.port(), None);

    let mut request = RequestData::new();
    request.x_forwarded_host = vec!["h:70000".to_string()];
    let trusted = Trusted::from(v4(127, 0, 0, 1), &request, &config);
    assert_eq!(trusted.port(), None);

    let mut request = RequestData::new();
    request.x_forwarded_host = vec!["h:".to_string()];
    let trusted = Trusted::from(v4(127, 0, 0, 1), &request, &config);
    assert_eq!(trusted.port(), None);
}

#[test]
fn resolving_twice_is_identical() {
    let mut request = RequestData::new();
    request.authority = Some("localhost:8080".to_string());
    request.scheme = Some("http".to_string());
    request.forwarded = vec!["for=1.2.3.4; proto=https; by=proxy; host=mydomain.com:8080".to_string()];

    let config = Config::default();
    let first = Trusted::from(v4(127, 0, 0, 1), &request, &config);
    let second = Trusted::from(v4(127, 0, 0, 1), &request, &config);

    assert_eq!(first.scheme(), second.scheme());
    assert_eq!(first.host_with_port(), second.host_with_port());
    assert_eq!(first.host(), second.host());
    assert_eq!(first.port(), second.port());
    assert_eq!(first.by(), second.by());
    assert_eq!(first.ip(), second.ip());
}

#[test]
fn forwarded_keys_are_case_insensitive() {
    let config = Config::default();

    let mut upper = RequestData::new();
    upper.forwarded = vec!["FOR=192.0.2.60; PrOtO=https; BY=proxy; Host=h.example".to_string()];
    let mut lower = RequestData::new();
    lower.forwarded = vec!["for=192.0.2.60; proto=https; by=proxy; host=h.example".to_string()];

    let a = Trusted::from(v4(127, 0, 0, 1), &upper, &config);
    let b = Trusted::from(v4(127, 0, 0, 1), &lower, &config);

    assert_eq!(a.ip(), b.ip());
    assert_eq!(a.ip(), v4(192, 0, 2, 60));
    assert_eq!(a.scheme(), b.scheme());
    assert_eq!(a.scheme(), Some("https"));
    assert_eq!(a.by(), b.by());
    assert_eq!(a.host(), b.host());
}

#[test]
fn add_trusted_ip_rejects_malformed_text() {
    let mut config = Config::new();
    let err = config.add_trusted_ip("not an address").unwrap_err();
    assert_eq!(err.text, "not an address");
    // a rejected specification changes nothing
    assert!(!config.is_ip_trusted(&v4(127, 0, 0, 1)));
}

#[test]
fn add_trusted_ip_accepts_cidr_and_bare_forms() {
    let mut config = Config::new();
    config.add_trusted_ip("10.0.0.0/8").unwrap();
    assert!(config.is_ip_trusted(&v4(10, 200, 3, 4)));
    assert!(!config.is_ip_trusted(&v4(11, 0, 0, 1)));

    config.add_trusted_ip("8.8.8.8").unwrap();
    assert!(config.is_ip_trusted(&v4(8, 8, 8, 8)));
    assert!(!config.is_ip_trusted(&v4(8, 8, 8, 9)));

    config.add_trusted_ip("2001:db8::/32").unwrap();
    assert!(config.is_ip_trusted(&v6([0x2001, 0x0db8, 0, 0, 0, 0, 0, 5])));
    assert!(!config.is_ip_trusted(&v6([0x2001, 0x0db9, 0, 0, 0, 0, 0, 5])));
}

#[test]
fn new_trusts_nothing() {
    let config = Config::new();
    assert!(!config.is_ip_trusted(&v4(127, 0, 0, 1)));
    assert!(!config.is_ip_trusted(&v4(10, 0, 0, 1)));
    assert!(!config.is_ip_trusted(&v6([0, 0, 0, 0, 0, 0, 0, 1])));
}

#[test]
fn new_local_trusts_loopback_and_private_ranges() {
    let config = Config::new_local();
    assert!(config.is_ip_trusted(&v4(127, 0, 0, 1)));
    assert!(config.is_ip_trusted(&v4(127, 255, 0, 3)));
    assert!(config.is_ip_trusted(&v4(10, 1, 2, 3)));
    assert!(config.is_ip_trusted(&v4(172, 16, 0, 1)));
    assert!(config.is_ip_trusted(&v4(172, 31, 255, 255)));
    assert!(config.is_ip_trusted(&v4(192, 168, 2, 60)));
    assert!(config.is_ip_trusted(&v6([0, 0, 0, 0, 0, 0, 0, 1])));
    assert!(config.is_ip_trusted(&v6([0xfd12, 0, 0, 0, 0, 0, 0, 9])));

    assert!(!config.is_ip_trusted(&v4(8, 8, 8, 8)));
    assert!(!config.is_ip_trusted(&v4(172, 32, 0, 1)));
    assert!(!config.is_ip_trusted(&v4(193, 168, 2, 60)));
    assert!(!config.is_ip_trusted(&v6([0xfe80, 0, 0, 0, 0, 0, 0, 1])));
}

#[test]
fn forwarded_falls_through_to_x_forwarded_for() {
    let mut request = RequestData::new();
    // the only Forwarded record names a trusted proxy: the walk is exhausted
    request.forwarded = vec!["for=10.0.0.2".to_string()];
    request.x_forwarded_for = vec!["5.6.7.8".to_string()];

    let config = Config::default();
    let trusted = Trusted::from(v4(127, 0, 0, 1), &request, &config);
    assert_eq!(trusted.ip(), v4(5, 6, 7, 8));
}

#[test]
fn unparseable_for_value_keeps_record_fields() {
    let mut request = RequestData::new();
    request.forwarded = vec!["for=unknown; proto=https".to_string()];

    let config = Config::default();
    let trusted = Trusted::from(v4(127, 0, 0, 1), &request, &config);
    // the unparseable value is ignored for trust purposes, the record's other
    // parameters are still read, and the address falls back to the peer
    assert_eq!(trusted.ip(), v4(127, 0, 0, 1));
    assert_eq!(trusted.scheme(), Some("https"));
}

#[test]
fn into_owned_keeps_the_resolution() {
    let mut request = RequestData::new();
    request.forwarded = vec!["for=1.2.3.4; proto=https; host=h:81; by=p".to_string()];

    let config = Config::default();
    let trusted = Trusted::from(v4(127, 0, 0, 1), &request, &config).into_owned();
    assert_eq!(trusted.ip(), v4(1, 2, 3, 4));
    assert_eq!(trusted.scheme(), Some("https"));
    assert_eq!(trusted.host(), Some("h"));
    assert_eq!(trusted.port(), Some(81));
    assert_eq!(trusted.by(), Some("p"));
}

#[test]
fn unquote_trims_and_strips_one_quote_layer() {
    assert_eq!(unquote("  \"192.0.2.60:8080\"  "), "192.0.2.60:8080");
    assert_eq!(unquote("plain"), "plain");
    assert_eq!(unquote("\"half"), "half");
    assert_eq!(unquote("\t spaced \t"), "spaced");
    assert_eq!(unquote(""), "");
}

#[test]
fn bare_address_strips_port_and_brackets() {
    assert_eq!(bare_address("1.2.3.4:8080"), "1.2.3.4");
    assert_eq!(bare_address("1.2.3.4"), "1.2.3.4");
    assert_eq!(bare_address("[2001:db8::17]:4711"), "2001:db8::17");
    assert_eq!(bare_address("[2001:db8::17]"), "2001:db8::17");
    // an unbracketed IPv6 literal is cut at the first colon
    assert_eq!(bare_address("2001:db8::17"), "2001");
}

#[test]
fn empty_forwarded_value_claims_nothing() {
    let mut request = RequestData::new();
    request.authority = Some("inner.example".to_string());
    request.forwarded = vec!["".to_string()];

    let config = Config::default();
    let trusted = Trusted::from(v4(127, 0, 0, 1), &request, &config);
    assert_eq!(trusted.ip(), v4(127, 0, 0, 1));
    assert_eq!(trusted.host(), Some("inner.example"));
    assert_eq!(trusted.scheme(), None);
    assert_eq!(trusted.by(), None);
}

#[test]
fn host_port_split_at_last_colon() {
    let mut config = Config::default();
    config.trust_x_forwarded_host();

    // a bracketed IPv6 host keeps its colons; only the trailing port is split
    let mut request = RequestData::new();
    request.x_forwarded_host = vec!["[::1]:443".to_string()];
    let trusted = Trusted::from(v4(127, 0, 0, 1), &request, &config);
    assert_eq!(trusted.host_with_port(), Some("[::1]:443"));
    assert_eq!(trusted.host(), Some("[::1]"));
    assert_eq!(trusted.port(), Some(443));

    // without a parseable trailing port the field is returned whole
    let mut request = RequestData::new();
    request.x_forwarded_host = vec!["[::1]".to_string()];
    let trusted = Trusted::from(v4(127, 0, 0, 1), &request, &config);
    assert_eq!(trusted.host(), Some("[::1]"));
    assert_eq!(trusted.port(), None);

    let mut request = RequestData::new();
    request.x_forwarded_host = vec!["h:1:2".to_string()];
    let trusted = Trusted::from(v4(127, 0, 0, 1), &request, &config);
    assert_eq!(trusted.host(), Some("h:1"));
    assert_eq!(trusted.port(), Some(2));
}
