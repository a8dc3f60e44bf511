use gato_http_server::headers::parse_header;
use gato_http_server::request::{parse_request, ParseError};

#[test]
fn full_request_components_match_source() {
    let raw = "GET /index.html HTTP/1.1\r\nHost: example\r\nAccept: text/plain\r\n\r\nbody bytes";
    let req = parse_request(raw).unwrap();
    assert_eq!(req.method, "GET");
    assert_eq!(req.target, "/index.html");
    assert_eq!(req.version, "HTTP/1.1");
    // values keep whatever whitespace follows the colon
    assert_eq!(req.headers.get("Host"), Some(&" example".to_string()));
    assert_eq!(req.headers.get("Accept"), Some(&" text/plain".to_string()));
    assert_eq!(req.body, "body bytes");
}

#[test]
fn empty_body_parses_to_empty_string() {
    let raw = "GET / HTTP/1.1\r\nHost: a\r\n\r\n";
    let req = parse_request(raw).unwrap();
    assert_eq!(req.body, "");
    assert_eq!(req.target, "/");
}

#[test]
fn request_line_without_version_leaves_version_empty() {
    let raw = "GET /\r\nHost: a\r\n\r\n";
    let req = parse_request(raw).unwrap();
    assert_eq!(req.method, "GET");
    assert_eq!(req.target, "/");
    assert_eq!(req.version, "");
}

#[test]
fn duplicate_header_keys_resolve_to_last_occurrence() {
    let raw = "GET / HTTP/1.1\r\nX-Tag:first\r\nX-Tag:second\r\n\r\n";
    let req = parse_request(raw).unwrap();
    assert_eq!(req.headers.get("X-Tag"), Some(&"second".to_string()));
}

#[test]
fn missing_boundary_is_rejected() {
    let raw = "GET / HTTP/1.1\r\nHost: example";
    assert_eq!(parse_request(raw).unwrap_err(), ParseError::MissingBoundary);
}

#[test]
fn missing_line_break_after_request_line_is_rejected() {
    let raw = "GET / HTTP/1.1\r\n\r\nbody";
    assert_eq!(parse_request(raw).unwrap_err(), ParseError::MissingRequestLineBreak);
}

#[test]
fn one_token_request_line_is_rejected() {
    let raw = "NOSPACE\r\nHost: a\r\n\r\n";
    assert_eq!(parse_request(raw).unwrap_err(), ParseError::BadRequestLine);
}

#[test]
fn header_line_with_colon_parses_key_and_value() {
    let headers = parse_header("X-Test:value");
    assert_eq!(headers.get("X-Test"), Some(&"value".to_string()));
}

#[test]
fn header_line_without_colon_parses_to_empty_value() {
    let headers = parse_header("X-Empty");
    assert_eq!(headers.get("X-Empty"), Some(&"".to_string()));
}

#[test]
fn header_value_keeps_second_colon() {
    let headers = parse_header("Host:example:8080");
    assert_eq!(headers.get("Host"), Some(&"example:8080".to_string()));
}

#[test]
fn empty_header_section_parses_to_the_empty_key() {
    // a single empty line is still one line: an empty key with an empty value
    let headers = parse_header("");
    assert_eq!(headers.get(""), Some(&"".to_string()));
}

#[test]
fn header_map_lookup_misses_absent_key() {
    let headers = parse_header("A:1\r\nB:2");
    assert_eq!(headers.get("A"), Some(&"1".to_string()));
    assert_eq!(headers.get("B"), Some(&"2".to_string()));
    assert_eq!(headers.get("C"), None);
}
