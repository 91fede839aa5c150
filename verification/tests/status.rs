use httpping::response::{extract_status_code, header_terminator_seen};

#[test]
fn terminator_detected() {
    assert!(header_terminator_seen("HTTP/1.1 200 OK\r\nServer: x\r\n\r\n"));
    assert!(header_terminator_seen("HTTP/1.1 200 OK\r\n\r\nbody"));
}

#[test]
fn terminator_absent() {
    assert!(!header_terminator_seen("HTTP/1.1 200 OK\r\nServer: x\r\n"));
    assert!(!header_terminator_seen(""));
}

#[test]
fn status_from_not_found() {
    let code = extract_status_code("HTTP/1.1 404 Not Found\r\nServer: x\r\n\r\n");
    assert_eq!(code, 404);
}

#[test]
fn status_from_ok() {
    assert_eq!(extract_status_code("HTTP/1.1 200 OK\r\n\r\n"), 200);
}

#[test]
fn status_zero_for_empty_response() {
    assert_eq!(extract_status_code(""), 0);
}

#[test]
fn status_zero_without_second_token() {
    assert_eq!(extract_status_code("HTTP/1.1\r\n"), 0);
    assert_eq!(extract_status_code("HTTP/1.1"), 0);
}

#[test]
fn status_zero_for_unparsable_token() {
    assert_eq!(extract_status_code("HTTP/1.1 abc Found\r\n"), 0);
}

#[test]
fn status_zero_on_overflow() {
    assert_eq!(extract_status_code("HTTP/1.1 99999 Huge\r\n"), 0);
}

#[test]
fn status_tolerates_extra_whitespace() {
    assert_eq!(extract_status_code("  HTTP/1.1 \t 301  moved\r\n"), 301);
}

#[test]
fn status_accepts_plus_sign_like_parse() {
    assert_eq!(extract_status_code("HTTP/1.1 +200 OK\r\n"), 200);
}

#[test]
fn status_reads_only_first_line() {
    assert_eq!(extract_status_code("HTTP/1.1 500 Oops\r\nRetry: 200\r\n\r\n"), 500);
}
