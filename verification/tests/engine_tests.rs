use gato_http_server::engine::{bad_request_response, handle_message};
use gato_http_server::request::ParseError;

struct EchoRouter;

impl gato_core::kernel::Router for EchoRouter {
    fn boot(&self) {}

    fn handle(
        &self,
        request_builder: &mut gato_core::kernel::RequestBuilder,
    ) -> gato_core::kernel::Response {
        let req = request_builder.get_request();
        let mut r = gato_core::kernel::Response::new();
        r.status(200).raw(&format!("{} {}", req.get_method(), req.get_uri()))
    }
}

#[test]
fn handle_message_round_trip_through_router() {
    gato_core::kernel::RouterHandler::set_driver(Box::new(EchoRouter));
    let raw = "GET /cats HTTP/1.1\r\nHost: example\r\n\r\n";
    let (resp, wire) = handle_message(raw).unwrap();
    assert_eq!(resp.code, 200);
    assert_eq!(resp.body, "GET /cats");
    assert_eq!(resp.headers.get("Content-Type"), Some(&"text/html".to_string()));
    assert_eq!(
        wire,
        "HTTP/1.1 200 OK\r\nServer: Gato Framework\r\nContent-Type: text/html\r\n\r\nGET /cats"
    );
}

#[test]
fn handle_message_post_body_reaches_router() {
    gato_core::kernel::RouterHandler::set_driver(Box::new(BodyRouter));
    let raw = "POST /submit HTTP/1.1\r\nHost: example\r\n\r\n{\"name\":\"alex\"}";
    let (resp, wire) = handle_message(raw).unwrap();
    assert_eq!(resp.code, 201);
    assert_eq!(resp.body, "got alex");
    assert!(wire.starts_with("HTTP/1.1 201 Created\r\nServer: Gato Framework\r\n"));
    assert!(wire.ends_with("\r\n\r\ngot alex"));
}

struct BodyRouter;

impl gato_core::kernel::Router for BodyRouter {
    fn boot(&self) {}

    fn handle(
        &self,
        request_builder: &mut gato_core::kernel::RequestBuilder,
    ) -> gato_core::kernel::Response {
        let req = request_builder.get_request();
        let name = req.get("name").as_str().unwrap_or("").to_string();
        let mut r = gato_core::kernel::Response::new();
        r.status(201).raw(&format!("got {}", name))
    }
}

#[test]
fn handle_message_without_boundary_fails_locally() {
    // No router is consulted: the parse fails first, so this must not
    // panic even if no driver were registered.
    let raw = "GET / HTTP/1.1\r\nHost: example";
    let err = handle_message(raw).unwrap_err();
    assert_eq!(err, ParseError::MissingBoundary);
}

#[test]
fn bad_request_response_is_a_serialized_400() {
    let (resp, wire) = bad_request_response(ParseError::MissingBoundary);
    assert_eq!(resp.code, 400);
    assert_eq!(resp.body, "missing header/body boundary");
    assert_eq!(
        wire,
        "HTTP/1.1 400 Bad Request\r\nServer: Gato Framework\r\n\r\nmissing header/body boundary"
    );
}
