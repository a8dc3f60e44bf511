use gato_http_server::response::{serialize_response, ParsedResponse};
use gato_http_server::status::code_to_text;

#[test]
fn tabulated_codes_have_their_phrases() {
    assert_eq!(code_to_text(100), "Continue");
    assert_eq!(code_to_text(200), "OK");
    assert_eq!(code_to_text(204), "No Content");
    assert_eq!(code_to_text(301), "Moved Permanently");
    assert_eq!(code_to_text(404), "Not Found");
    assert_eq!(code_to_text(500), "Internal Server Error");
    assert_eq!(code_to_text(505), "HTTP Version not supported");
}

#[test]
fn untabulated_codes_fall_back_to_the_placeholder() {
    assert_eq!(code_to_text(999), "EITA");
    assert_eq!(code_to_text(0), "EITA");
    assert_eq!(code_to_text(-7), "EITA");
    assert_eq!(code_to_text(306), "EITA");
}

#[test]
fn serialize_matches_wire_format_exactly() {
    let mut resp = ParsedResponse::new(200);
    resp.headers.insert("Content-Type".to_string(), "text/plain".to_string());
    resp.body = "hi".to_string();
    let wire = serialize_response(&resp);
    assert_eq!(
        wire,
        "HTTP/1.1 200 OK\r\nServer: Gato Framework\r\nContent-Type: text/plain\r\n\r\nhi"
    );
}

#[test]
fn serialize_without_headers_has_only_the_fixed_server_header() {
    let mut resp = ParsedResponse::new(204);
    resp.body = "".to_string();
    let wire = serialize_response(&resp);
    assert_eq!(wire, "HTTP/1.1 204 No Content\r\nServer: Gato Framework\r\n\r\n");
}

#[test]
fn serialize_unknown_code_uses_placeholder_phrase() {
    let resp = ParsedResponse::new(999);
    let wire = serialize_response(&resp);
    assert_eq!(wire, "HTTP/1.1 999 EITA\r\nServer: Gato Framework\r\n\r\n");
}

#[test]
fn serialize_negative_code_renders_sign() {
    let resp = ParsedResponse::new(-12);
    let wire = serialize_response(&resp);
    assert_eq!(wire, "HTTP/1.1 -12 EITA\r\nServer: Gato Framework\r\n\r\n");
}

#[test]
fn from_parts_lets_a_later_duplicate_win() {
    let pairs = vec![
        ("A".to_string(), "1".to_string()),
        ("B".to_string(), "2".to_string()),
        ("A".to_string(), "3".to_string()),
    ];
    let resp = ParsedResponse::from_parts(200, pairs, "x".to_string());
    assert_eq!(resp.headers.get("A"), Some(&"3".to_string()));
    assert_eq!(resp.headers.get("B"), Some(&"2".to_string()));
    assert_eq!(resp.body, "x");
    // the replaced key takes the last position among the entries
    let wire = serialize_response(&resp);
    assert_eq!(
        wire,
        "HTTP/1.1 200 OK\r\nServer: Gato Framework\r\nB: 2\r\nA: 3\r\n\r\nx"
    );
}
