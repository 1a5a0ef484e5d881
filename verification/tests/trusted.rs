use trusted_proxies::Config;
use trusted_proxies::IpAddress;
use trusted_proxies::RequestData;
use trusted_proxies::Trusted;

fn v4(a: u8, b: u8, c: u8, d: u8) -> IpAddress {
    IpAddress::from_v4_octets(a, b, c, d)
}

/// A bare request: host header allowed, nothing else set, as a request for
/// "/" carries it.
fn bare_request() -> RequestData {
    RequestData::new()
}

/// A request for "http://localhost:8080/": the URI carries the authority and
/// the scheme.
fn localhost_request() -> RequestData {
    let mut r = RequestData::new();
    r.authority = Some("localhost:8080".to_string());
    r.scheme = Some("http".to_string());
    r
}

#[test]
fn default() {
    let request = localhost_request();
    let config = Config::default();
    let trusted = Trusted::from(v4(127, 0, 0, 1), &request, &config);

    assert_eq!(trusted.scheme(), Some("http"));
    assert_eq!(trusted.host(), Some("localhost"));
    assert_eq!(trusted.port(), Some(8080));
    assert_eq!(trusted.ip(), v4(127, 0, 0, 1));
}

#[test]
fn host_header() {
    let mut request = localhost_request();
    request.host_header = Some("rust-lang.org:8081".to_string());
    let config = Config::default();
    let trusted = Trusted::from(v4(127, 0, 0, 1), &request, &config);

    assert_eq!(trusted.scheme(), Some("http"));
    assert_eq!(trusted.host(), Some("rust-lang.org"));
    assert_eq!(trusted.port(), Some(8081));
    assert_eq!(trusted.ip(), v4(127, 0, 0, 1));
}

#[test]
fn host_header_not_allowed() {
    let mut request = localhost_request();
    request.host_header = Some("rust-lang.org".to_string());
    // HTTP/2: the authority is preferred over the host header.
    request.is_host_header_allowed = false;
    let config = Config::default();
    let trusted = Trusted::from(v4(127, 0, 0, 1), &request, &config);

    assert_eq!(trusted.scheme(), Some("http"));
    assert_eq!(trusted.host(), Some("localhost"));
    assert_eq!(trusted.ip(), v4(127, 0, 0, 1));
}

#[test]
fn x_forwarded_for_header_trusted() {
    let mut request = bare_request();
    request.x_forwarded_for = vec!["1.1.1.1".to_string()];

    let config = Config::default();

    // 192.168.2.60 is a local ip address, so it should be trusted by default
    let trusted = Trusted::from(v4(192, 168, 2, 60), &request, &config);

    assert_eq!(trusted.ip(), v4(1, 1, 1, 1));
}

#[test]
fn x_forwarded_for_header_trusted_multiple() {
    let mut request = bare_request();
    request.x_forwarded_for = vec!["1.1.1.1".to_string(), "8.8.8.8".to_string()];

    let config = Config::default();

    // 192.168.2.60 is a local ip address, so it should be trusted by default
    let trusted = Trusted::from(v4(192, 168, 2, 60), &request, &config);

    assert_eq!(trusted.ip(), v4(8, 8, 8, 8));

    let mut request = bare_request();
    request.x_forwarded_for = vec!["1.1.1.1".to_string(), "8.8.8.8".to_string()];

    let mut config = Config::default();
    config
        .add_trusted_ip("8.8.8.8")
        .expect("Failed to add trusted ip");

    let trusted = Trusted::from(v4(192, 168, 2, 60), &request, &config);

    assert_eq!(trusted.ip(), v4(1, 1, 1, 1));

    let mut request = bare_request();
    request.x_forwarded_for = vec!["1.1.1.1, 8.8.8.8".to_string()];

    let config = Config::default();

    let trusted = Trusted::from(v4(192, 168, 2, 60), &request, &config);

    assert_eq!(trusted.ip(), v4(8, 8, 8, 8));

    let mut request = bare_request();
    request.x_forwarded_for = vec!["1.1.1.1, 8.8.8.8".to_string()];

    let mut config = Config::default();
    config
        .add_trusted_ip("8.8.8.8")
        .expect("Failed to add trusted ip");

    let trusted = Trusted::from(v4(192, 168, 2, 60), &request, &config);

    assert_eq!(trusted.ip(), v4(1, 1, 1, 1));
}

#[test]
fn x_forwarded_for_header_untrusted() {
    let mut request = bare_request();
    request.x_forwarded_for = vec!["8.8.8.8".to_string()];

    let mut config = Config::new();
    config
        .add_trusted_ip("8.8.8.8")
        .expect("Failed to add trusted ip");

    // the peer itself is not trusted: the header may not be read
    let trusted = Trusted::from(v4(192, 168, 2, 60), &request, &config);

    assert_eq!(trusted.ip(), v4(192, 168, 2, 60));
}

#[test]
fn x_forwarded_host_header_trusted() {
    let mut request = bare_request();
    request.x_forwarded_host = vec!["example.com:8080".to_string()];

    let mut config = Config::default();
    config.trust_x_forwarded_host();

    // 192.168.2.60 is a local ip address, so it should be trusted by default
    let trusted = Trusted::from(v4(192, 168, 2, 60), &request, &config);

    assert_eq!(trusted.host(), Some("example.com"));
    assert_eq!(trusted.port(), Some(8080));

    let mut request = bare_request();
    // multiple hosts: the last one is taken
    request.x_forwarded_host = vec!["first.com:1234, example.com".to_string()];

    let mut config = Config::default();
    config.trust_x_forwarded_host();

    let trusted = Trusted::from(v4(192, 168, 2, 60), &request, &config);

    assert_eq!(trusted.host(), Some("example.com"));
    assert_eq!(trusted.port(), None);

    let mut request = bare_request();
    request.x_forwarded_host = vec!["first.com, example.com".to_string()];

    let mut config = Config::default();
    config.trust_x_forwarded_host();

    // 1.1.1.1 is not a trusted peer: no header is read
    let trusted = Trusted::from(v4(1, 1, 1, 1), &request, &config);

    assert_eq!(trusted.host(), None);
}

#[test]
fn x_forwarded_host_header_untrusted() {
    let mut request = bare_request();
    request.x_forwarded_host = vec!["first.com, example.com".to_string()];

    // the header itself is not trusted by default
    let config = Config::default();

    let trusted = Trusted::from(v4(127, 0, 0, 1), &request, &config);

    assert_eq!(trusted.host(), None);
}

#[test]
fn x_forwarded_proto_header_trusted() {
    let mut request = bare_request();
    request.x_forwarded_proto = vec!["https".to_string()];

    let mut config = Config::default();
    config.trust_x_forwarded_proto();

    // 192.168.2.60 is a local ip address, so it should be trusted by default
    let trusted = Trusted::from(v4(192, 168, 2, 60), &request, &config);

    assert_eq!(trusted.scheme(), Some("https"));

    let mut request = bare_request();
    request.x_forwarded_proto = vec!["http".to_string(), "https".to_string()];

    let mut config = Config::default();
    config.trust_x_forwarded_proto();

    let trusted = Trusted::from(v4(192, 168, 2, 60), &request, &config);

    assert_eq!(trusted.scheme(), Some("https"));

    let mut request = bare_request();
    request.x_forwarded_proto = vec!["http, https".to_string()];

    let mut config = Config::default();
    config.trust_x_forwarded_proto();

    let trusted = Trusted::from(v4(192, 168, 2, 60), &request, &config);

    assert_eq!(trusted.scheme(), Some("https"));

    let mut request = bare_request();
    request.x_forwarded_proto = vec!["https".to_string()];

    let mut config = Config::default();
    config.trust_x_forwarded_proto();

    // 1.1.1.1 is not a trusted peer: no header is read
    let trusted = Trusted::from(v4(1, 1, 1, 1), &request, &config);

    assert_eq!(trusted.scheme(), None);
}

#[test]
fn x_forwarded_proto_header_untrusted() {
    let mut request = bare_request();
    request.x_forwarded_proto = vec!["https".to_string()];

    // the header itself is not trusted by default
    let config = Config::default();

    let trusted = Trusted::from(v4(127, 0, 0, 1), &request, &config);

    assert_eq!(trusted.scheme(), None);
}

#[test]
fn forwarded_header() {
    let mut request = bare_request();
    request.forwarded =
        vec!["for=192.0.2.60; proto=https; by=203.0.113.43; host=rust-lang.org".to_string()];

    let config = Config::default();

    let trusted = Trusted::from(v4(127, 0, 0, 1), &request, &config);

    assert_eq!(trusted.scheme(), Some("https"));
    assert_eq!(trusted.host(), Some("rust-lang.org"));
    assert_eq!(trusted.by(), Some("203.0.113.43"));
    assert_eq!(trusted.ip(), v4(192, 0, 2, 60));
}

#[test]
fn forwarded_case_sensitivity() {
    let mut request = bare_request();
    request.forwarded = vec!["For=192.0.2.60".to_string()];

    let config = Config::default();

    let trusted = Trusted::from(v4(127, 0, 0, 1), &request, &config);

    assert_eq!(trusted.ip(), v4(192, 0, 2, 60));
}

#[test]
fn forwarded_for_quoted() {
    let mut request = bare_request();
    request.forwarded = vec![r#"for="192.0.2.60:8080""#.to_string()];

    let config = Config::default();

    let trusted = Trusted::from(v4(127, 0, 0, 1), &request, &config);
    assert_eq!(trusted.ip(), v4(192, 0, 2, 60));
}

#[test]
fn forwarded_for_ipv6() {
    let mut request = bare_request();
    request.forwarded = vec![r#"for="[2001:db8:cafe::17]""#.to_string()];

    let config = Config::default();

    let trusted = Trusted::from(v4(127, 0, 0, 1), &request, &config);
    assert_eq!(
        trusted.ip(),
        IpAddress::from_v6_groups([0x2001, 0x0db8, 0xcafe, 0, 0, 0, 0, 0x17])
    );
    assert!(trusted.ip().is_ipv6());
}

#[test]
fn forwarded_for_ipv6_with_port() {
    let mut request = bare_request();
    request.forwarded = vec![r#"for="[2001:db8:cafe::17]:4711""#.to_string()];

    let config = Config::default();

    let trusted = Trusted::from(v4(127, 0, 0, 1), &request, &config);
    assert_eq!(
        trusted.ip(),
        IpAddress::from_v6_groups([0x2001, 0x0db8, 0xcafe, 0, 0, 0, 0, 0x17])
    );
    assert!(trusted.ip().is_ipv6());
}

#[test]
fn forwarded_for_multiple() {
    let mut request = bare_request();
    request.forwarded = vec!["for=192.0.2.60, for=198.51.100.17".to_string()];

    let config = Config::default();

    let trusted = Trusted::from(v4(127, 0, 0, 1), &request, &config);
    assert_eq!(trusted.ip(), v4(198, 51, 100, 17));

    let mut request = bare_request();
    request.forwarded = vec!["for=192.0.2.60;proto=https, for=198.51.100.17;proto=http".to_string()];

    let mut config = Config::default();
    config
        .add_trusted_ip("198.51.100.17")
        .expect("Failed to add trusted ip");

    let trusted = Trusted::from(v4(127, 0, 0, 1), &request, &config);
    assert_eq!(trusted.ip(), v4(192, 0, 2, 60));
    assert_eq!(trusted.scheme(), Some("https"));

    let mut request = bare_request();
    request.forwarded = vec!["for=192.0.2.60, for=198.51.100.17;proto=http".to_string()];

    let mut config = Config::default();
    config
        .add_trusted_ip("198.51.100.17")
        .expect("Failed to add trusted ip");

    let trusted = Trusted::from(v4(127, 0, 0, 1), &request, &config);
    assert_eq!(trusted.ip(), v4(192, 0, 2, 60));
    assert_eq!(trusted.scheme(), None);
}
