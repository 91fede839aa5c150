use httpping::request::{build_request, RequestSpec};

#[test]
fn request_without_body() {
    let headers: Vec<(String, String)> = Vec::new();
    let r = build_request("GET", "/", "example.com", &headers, None);
    assert_eq!(r, "GET / HTTP/1.1\r\nHost: example.com\r\nConnection: close\r\n\r\n");
}

#[test]
fn request_keeps_header_order_and_duplicates() {
    let headers = vec![
        (String::from("A"), String::from("1")),
        (String::from("B"), String::from("2")),
        (String::from("A"), String::from("3")),
    ];
    let r = build_request("GET", "/x", "h.test", &headers, None);
    assert_eq!(
        r,
        "GET /x HTTP/1.1\r\nHost: h.test\r\nConnection: close\r\nA: 1\r\nB: 2\r\nA: 3\r\n\r\n"
    );
}

#[test]
fn request_with_body_declares_exact_length() {
    let headers: Vec<(String, String)> = Vec::new();
    let body = String::from("hello");
    let r = build_request("POST", "/submit", "example.com", &headers, Some(&body));
    assert_eq!(
        r,
        "POST /submit HTTP/1.1\r\nHost: example.com\r\nConnection: close\r\nContent-Length: 5\r\n\r\nhello"
    );
}

#[test]
fn content_length_counts_bytes_not_chars() {
    let headers: Vec<(String, String)> = Vec::new();
    let body = String::from("h\u{e9}llo");
    let r = build_request("POST", "/", "example.com", &headers, Some(&body));
    assert!(r.contains("Content-Length: 6\r\n"));
    assert!(r.ends_with("\r\n\r\nh\u{e9}llo"));
}

#[test]
fn request_spec_serializes_like_build_request() {
    let spec = RequestSpec {
        method: String::from("POST"),
        headers: vec![(String::from("X"), String::from("y"))],
        body: Some(String::from("hi")),
    };
    let direct = build_request("POST", "/p", "h.test", &spec.headers, spec.body.as_ref());
    assert_eq!(spec.serialize("/p", "h.test"), direct);
    assert!(direct.contains("Content-Length: 2\r\n"));
}

#[test]
fn body_follows_blank_line_unmodified() {
    let headers = vec![(String::from("X"), String::from("y"))];
    let body = String::from("a=1&b=2");
    let r = build_request("PUT", "/p", "example.com", &headers, Some(&body));
    let split = r.find("\r\n\r\n").unwrap();
    assert_eq!(&r[split + 4..], "a=1&b=2");
    assert!(r.contains("Content-Length: 7\r\n"));
}
