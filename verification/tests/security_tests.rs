use browser_terminal::ip::IpAddress;
use browser_terminal::security::{
    default_requires_auth, origin_host_is_loopback, parse_cors_origin, validate_origin,
    OriginPolicy, RequestHeaders, SecurityPolicy,
};

fn headers(host: &str, origin: &str) -> RequestHeaders {
    let mut h = RequestHeaders::new();
    h.host = Some(host.as_bytes().to_vec());
    h.origin = Some(origin.as_bytes().to_vec());
    h
}

#[test]
fn default_policy_allows_loopback_host_and_origin_on_server_port() {
    let policy = SecurityPolicy::new(None, false, 3000);
    let headers = headers("localhost:3000", "http://127.0.0.1:3000");

    assert!(policy.allows_headers(&headers));
}

#[test]
fn default_policy_rejects_rebound_host_and_origin() {
    let policy = SecurityPolicy::new(None, false, 3000);
    let headers = headers("evil.example:3000", "http://evil.example:3000");

    assert!(!policy.allows_headers(&headers));
}

#[test]
fn default_policy_rejects_loopback_origin_on_different_port() {
    let policy = SecurityPolicy::new(None, false, 3000);
    let headers = headers("localhost:3000", "http://localhost:5173");

    assert!(!policy.allows_headers(&headers));
}

#[test]
fn explicit_origin_allows_frontend_origin_with_loopback_host() {
    let policy = SecurityPolicy::new(
        Some(parse_cors_origin("http://localhost:5173").unwrap()),
        false,
        3000,
    );
    let headers = headers("127.0.0.1:3000", "http://localhost:5173");

    assert!(policy.allows_headers(&headers));
}

#[test]
fn dangerous_policy_allows_rebound_headers() {
    let policy = SecurityPolicy::new(None, true, 3000);
    let headers = headers("evil.example:3000", "http://evil.example:3000");

    assert!(policy.allows_headers(&headers));
}

#[test]
fn configured_cors_origin_must_not_include_path() {
    let err = parse_cors_origin("http://localhost:5173/app").unwrap_err();

    assert!(err.contains("path"));
}

#[test]
fn loopback_listener_does_not_require_auth_by_default() {
    assert!(!default_requires_auth(
        &IpAddress::parse("127.0.0.1").unwrap(),
        None,
        false
    ));
}

#[test]
fn loopback_cors_origin_does_not_require_auth_by_default() {
    let origin = b"http://localhost:5173".to_vec();

    assert!(!default_requires_auth(
        &IpAddress::parse("127.0.0.1").unwrap(),
        Some(&origin),
        false
    ));
}

#[test]
fn non_loopback_listener_requires_auth_by_default() {
    assert!(default_requires_auth(
        &IpAddress::parse("0.0.0.0").unwrap(),
        None,
        false
    ));
}

#[test]
fn non_loopback_cors_origin_requires_auth_by_default() {
    let origin = b"https://example.com".to_vec();

    assert!(default_requires_auth(
        &IpAddress::parse("127.0.0.1").unwrap(),
        Some(&origin),
        false
    ));
}

#[test]
fn dangerous_host_policy_requires_auth_by_default() {
    assert!(default_requires_auth(
        &IpAddress::parse("127.0.0.1").unwrap(),
        None,
        true
    ));
}

// ---------------------------------------------------------------------------

#[test]
fn request_without_origin_passes_origin_check() {
    let policy = SecurityPolicy::new(None, false, 3000);
    let mut h = RequestHeaders::new();
    h.host = Some(b"127.0.0.1:3000".to_vec());
    assert!(policy.allows_headers(&h));
}

#[test]
fn request_without_host_is_refused_by_default() {
    let policy = SecurityPolicy::new(None, false, 3000);
    let h = RequestHeaders::new();
    assert!(!policy.allows_headers(&h));
}

#[test]
fn host_without_port_counts_as_port_80() {
    let policy = SecurityPolicy::new(None, false, 80);
    let mut h = RequestHeaders::new();
    h.host = Some(b"localhost".to_vec());
    assert!(policy.allows_headers(&h));
    let policy = SecurityPolicy::new(None, false, 3000);
    assert!(!policy.allows_headers(&h));
}

#[test]
fn localhost_is_case_insensitive_and_ipv6_loopback_passes() {
    let policy = SecurityPolicy::new(None, false, 3000);
    let h = headers("LocalHost:3000", "http://[::1]:3000");
    assert!(policy.allows_headers(&h));
    let h = headers("[::1]:3000", "https://127.8.9.10:3000");
    assert!(policy.allows_headers(&h));
}

#[test]
fn non_loopback_ip_hosts_are_refused() {
    let policy = SecurityPolicy::new(None, false, 3000);
    let h = headers("10.0.0.1:3000", "http://127.0.0.1:3000");
    assert!(!policy.allows_headers(&h));
    let h = headers("128.0.0.1:3000", "http://127.0.0.1:3000");
    assert!(!policy.allows_headers(&h));
    let h = headers("[::2]:3000", "http://127.0.0.1:3000");
    assert!(!policy.allows_headers(&h));
}

#[test]
fn origin_with_other_scheme_is_refused() {
    let policy = SecurityPolicy::new(None, false, 3000);
    let h = headers("localhost:3000", "ftp://localhost:3000");
    assert!(!policy.allows_headers(&h));
}

#[test]
fn origin_with_non_ascii_bytes_is_refused() {
    let policy = SecurityPolicy::new(None, false, 3000);
    let mut h = RequestHeaders::new();
    h.host = Some(b"localhost:3000".to_vec());
    h.origin = Some(vec![b'h', 0xff, b'x']);
    assert!(!policy.allows_headers(&h));
}

#[test]
fn explicit_origin_must_match_exactly() {
    let policy = SecurityPolicy::new(Some(b"http://localhost:5173".to_vec()), false, 3000);
    let h = headers("127.0.0.1:3000", "http://localhost:5174");
    assert!(!policy.allows_headers(&h));
    let h = headers("evil.example:3000", "http://localhost:5173");
    assert!(!policy.allows_headers(&h));
}

#[test]
fn cors_decision_per_policy() {
    let exact = OriginPolicy::Exact(b"http://a.example".to_vec());
    assert!(exact.cors_allows_origin(b"http://a.example"));
    assert!(!exact.cors_allows_origin(b"http://b.example"));
    let loopback = OriginPolicy::Loopback { server_port: 3000 };
    assert!(loopback.cors_allows_origin(b"http://localhost:3000"));
    assert!(!loopback.cors_allows_origin(b"http://localhost:3001"));
    assert!(OriginPolicy::AllowAll.cors_allows_origin(b"http://evil.example"));
}

#[test]
fn descriptions_of_each_policy() {
    assert_eq!(
        SecurityPolicy::new(None, true, 3000).description(),
        "dangerously allowing all Host and Origin headers"
    );
    assert_eq!(
        SecurityPolicy::new(None, false, 3000).description(),
        "loopback Host and Origin on port 3000"
    );
    assert_eq!(
        SecurityPolicy::new(Some(b"http://localhost:5173".to_vec()), false, 8080).description(),
        "loopback Host on port 8080; exact Origin http://localhost:5173"
    );
    assert_eq!(
        SecurityPolicy::new(Some(vec![0xff]), false, 1).description(),
        "loopback Host on port 1; exact Origin <invalid utf8 origin>"
    );
}

#[test]
fn cors_origin_errors() {
    assert_eq!(
        parse_cors_origin("http://localhost\n").unwrap_err(),
        "invalid header value: failed to parse header value"
    );
    assert_eq!(
        parse_cors_origin("http://héllo").unwrap_err(),
        "origin must contain visible ASCII characters"
    );
    assert_eq!(
        parse_cors_origin("ftp://localhost").unwrap_err(),
        "origin scheme must be http or https"
    );
    assert_eq!(
        parse_cors_origin("localhost:5173").unwrap_err(),
        "origin scheme must be http or https"
    );
    assert_eq!(
        parse_cors_origin("http://localhost:5173?x=1").unwrap_err(),
        "origin must not include a path or query"
    );
    assert_eq!(
        parse_cors_origin("http://").unwrap_err(),
        "origin must be a valid URL origin, for example http://localhost:5173"
    );
    assert_eq!(
        parse_cors_origin("https://example.com").unwrap(),
        b"https://example.com".to_vec()
    );
    assert!(validate_origin(b"http://localhost:5173/").is_ok());
}

#[test]
fn origin_host_loopback_ignores_port() {
    assert!(origin_host_is_loopback(b"http://localhost:1"));
    assert!(origin_host_is_loopback(b"https://127.0.0.1"));
    assert!(!origin_host_is_loopback(b"https://example.com"));
    assert!(!origin_host_is_loopback(b"ws://localhost"));
}
