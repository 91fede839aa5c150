use httpping::errors::ProbeError;
use httpping::header::parse_header;
use httpping::url::{add_scheme_if_missing, host_port, resolve_target, Scheme};

#[test]
fn header_basic() {
    let r = parse_header("Content-Type: application/json").unwrap();
    assert_eq!(r.0, "Content-Type");
    assert_eq!(r.1, "application/json");
}

#[test]
fn header_trims_both_sides() {
    let r = parse_header("  X-Foo :  bar baz  ").unwrap();
    assert_eq!(r.0, "X-Foo");
    assert_eq!(r.1, "bar baz");
}

#[test]
fn header_without_colon_rejected() {
    let r = parse_header("X-Foo");
    assert_eq!(r, Err(String::from("Invalid header format: X-Foo")));
}

#[test]
fn header_splits_at_first_colon() {
    let r = parse_header("a:b:c").unwrap();
    assert_eq!(r.0, "a");
    assert_eq!(r.1, "b:c");
}

#[test]
fn header_empty_value() {
    let r = parse_header("X-Empty:").unwrap();
    assert_eq!(r.0, "X-Empty");
    assert_eq!(r.1, "");
}

#[test]
fn bare_host_gets_https() {
    let (url, inferred) = add_scheme_if_missing("example.com");
    assert_eq!(url, "https://example.com");
    assert!(inferred);
}

#[test]
fn explicit_scheme_kept() {
    let (url, inferred) = add_scheme_if_missing("http://example.com");
    assert_eq!(url, "http://example.com");
    assert!(!inferred);
}

#[test]
fn resolve_https_defaults() {
    let t = resolve_target("https://example.com").unwrap();
    assert_eq!(t.scheme, Scheme::Encrypted);
    assert_eq!(t.host, "example.com");
    assert_eq!(t.port, 443);
    assert_eq!(t.path, "/");
    assert_eq!(t.resolved, "https://example.com/");
}

#[test]
fn resolve_explicit_port_and_path() {
    let t = resolve_target("http://example.com:8080/foo?q=1").unwrap();
    assert_eq!(t.scheme, Scheme::Plain);
    assert_eq!(t.host, "example.com");
    assert_eq!(t.port, 8080);
    assert_eq!(t.path, "/foo");
}

#[test]
fn bare_host_resolves_like_https() {
    let (amended, _) = add_scheme_if_missing("example.com");
    let a = resolve_target(&amended).unwrap();
    let b = resolve_target("https://example.com").unwrap();
    assert_eq!(a.scheme, b.scheme);
    assert_eq!(a.host, b.host);
    assert_eq!(a.port, b.port);
    assert_eq!(a.path, b.path);
    assert_eq!(a.resolved, b.resolved);
}

#[test]
fn resolve_rejects_unparsable() {
    assert_eq!(resolve_target("https://").unwrap_err(), ProbeError::InvalidUrl);
}

#[test]
fn resolve_rejects_missing_host() {
    assert_eq!(resolve_target("mailto:user@example.com").unwrap_err(), ProbeError::MissingHost);
}

#[test]
fn resolve_rejects_unknown_port() {
    assert_eq!(resolve_target("foo://bar").unwrap_err(), ProbeError::InvalidPort);
}

#[test]
fn address_is_host_colon_port() {
    assert_eq!(host_port("example.com", 443), "example.com:443");
}
