//! One connection's compute step: parse the buffered message, hand the
//! parsed request to the router registered with `gato_core`, and serialize
//! the response it returns.  The router is an outside collaborator: what
//! it answers is its own affair, so the contracts here pin down the
//! parsing, what the router is handed, the shape of the response, and the
//! serialization, but not the router's choice.

use vstd::prelude::*;
use crate::headers::{map_of, unique_keys};
use crate::request::{ParsedRequest, ParseError, RequestParts, spec_parse_request, parse_request};
use crate::response::{ParsedResponse, spec_serialize_response, serialize_response};

verus! {

/// gato_core's request builder, carried through opaquely: the engine only
/// fills it and hands it to the router.  What it holds is spoken of
/// through the four `builder_*_of` names below.
#[verifier::external_type_specification]
#[verifier::external_body]
pub struct ExRequestBuilder(gato_core::kernel::RequestBuilder);

/// gato_core's response, carried through opaquely: the engine only takes
/// its code, headers and body out.
#[verifier::external_type_specification]
#[verifier::external_body]
pub struct ExResponse(gato_core::kernel::Response);

/// The method a builder holds.
pub uninterp spec fn builder_method_of(b: gato_core::kernel::RequestBuilder) -> Seq<char>;

/// The target/URI a builder holds.
pub uninterp spec fn builder_uri_of(b: gato_core::kernel::RequestBuilder) -> Seq<char>;

/// The header mapping a builder holds.
pub uninterp spec fn builder_headers_of(b: gato_core::kernel::RequestBuilder) -> Map<
    Seq<char>,
    Seq<char>,
>;

/// The body a builder holds.
pub uninterp spec fn builder_body_of(b: gato_core::kernel::RequestBuilder) -> Seq<char>;

/// Relies on gato_core's RequestBuilder::new, which makes a builder whose
/// request holds empty strings and an empty header map.
pub assume_specification[ gato_core::kernel::RequestBuilder::new ]() -> (r: gato_core::kernel::RequestBuilder)
    ensures
        builder_method_of(r) == Seq::<char>::empty(),
        builder_uri_of(r) == Seq::<char>::empty(),
        (builder_headers_of(r) == Map::<Seq<char>, Seq<char>>::empty()),
        builder_body_of(r) == Seq::<char>::empty(),
;

/// Relies on gato_core's RequestBuilder::add_method, which stores the
/// method in the builder's request and touches nothing else.
pub assume_specification[ gato_core::kernel::RequestBuilder::add_method ](
    b: &mut gato_core::kernel::RequestBuilder,
    method: String,
)
    ensures
        builder_method_of(*final(b)) == method@,
        builder_uri_of(*final(b)) == builder_uri_of(*old(b)),
        builder_headers_of(*final(b)) == builder_headers_of(*old(b)),
        builder_body_of(*final(b)) == builder_body_of(*old(b)),
;

/// Relies on gato_core's RequestBuilder::add_uri, which stores the target
/// in the builder's request and touches nothing else.
pub assume_specification[ gato_core::kernel::RequestBuilder::add_uri ](
    b: &mut gato_core::kernel::RequestBuilder,
    uri: String,
)
    ensures
        builder_uri_of(*final(b)) == uri@,
        builder_method_of(*final(b)) == builder_method_of(*old(b)),
        builder_headers_of(*final(b)) == builder_headers_of(*old(b)),
        builder_body_of(*final(b)) == builder_body_of(*old(b)),
;

/// Relies on gato_core's RequestBuilder::add_header, which inserts the
/// pair into the builder's header map — a std HashMap, so a later pair
/// with the same key overwrites an earlier one — and touches nothing
/// else.
pub assume_specification[ gato_core::kernel::RequestBuilder::add_header ](
    b: &mut gato_core::kernel::RequestBuilder,
    name: String,
    value: String,
)
    ensures
        builder_headers_of(*final(b)) == builder_headers_of(*old(b)).insert(name@, value@),
        builder_method_of(*final(b)) == builder_method_of(*old(b)),
        builder_uri_of(*final(b)) == builder_uri_of(*old(b)),
        builder_body_of(*final(b)) == builder_body_of(*old(b)),
;

/// Relies on gato_core's RequestBuilder::add_body, which stores the body
/// in the builder's request and touches nothing else.
pub assume_specification[ gato_core::kernel::RequestBuilder::add_body ](
    b: &mut gato_core::kernel::RequestBuilder,
    body: String,
)
    ensures
        builder_body_of(*final(b)) == body@,
        builder_method_of(*final(b)) == builder_method_of(*old(b)),
        builder_uri_of(*final(b)) == builder_uri_of(*old(b)),
        builder_headers_of(*final(b)) == builder_headers_of(*old(b)),
;

/// Relies on gato_core's Response::get_code, which hands the response's
/// status code out; what it is depends on the router, so nothing is
/// claimed.
pub assume_specification[ gato_core::kernel::Response::get_code ](
    r: &gato_core::kernel::Response,
) -> i32;

/// Relies on gato_core's Response::get_body, which hands a copy of the
/// response's body out; what it is depends on the router, so nothing is
/// claimed.
pub assume_specification[ gato_core::kernel::Response::get_body ](
    r: &gato_core::kernel::Response,
) -> String;

/// Relies on gato_core's RouterHandler::get_driver and Router::handle:
/// the router the application registered with RouterHandler::set_driver
/// maps the request the builder holds to a response.  get_driver panics
/// if the application never registered a router, so registration must
/// come before the first request; nothing is assumed about the answer.
#[verifier::external_body]
fn route(builder: &mut gato_core::kernel::RequestBuilder) -> (r: gato_core::kernel::Response) {
    gato_core::kernel::RouterHandler::get_driver().handle(builder)
}

/// Relies on gato_core's Response::get_headers, which hands out a copy of
/// the response's header map, a std HashMap: each key occurs at most once;
/// the order of the pairs is whatever the map's iteration gives.
#[verifier::external_body]
fn response_header_pairs(resp: &gato_core::kernel::Response) -> (r: Vec<(String, String)>)
    ensures
        unique_keys(r@.map_values(|p: (String, String)| (p.0@, p.1@))),
{
    resp.get_headers().into_iter().collect()
}

/// A builder holding exactly the parsed request: its method, target,
/// header mapping and body.
fn fill_builder(req: &ParsedRequest) -> (b: gato_core::kernel::RequestBuilder)
    ensures
        builder_method_of(b) == req.parts().method,
        builder_uri_of(b) == req.parts().target,
        builder_headers_of(b) == req.parts().headers,
        builder_body_of(b) == req.parts().body,
{
    let mut builder = gato_core::kernel::RequestBuilder::new();
    builder.add_method(req.method.clone());
    builder.add_uri(req.target.clone());
    builder.add_body(req.body.clone());
    let ghost ev = req.headers.entry_views();
    let n = req.headers.len();
    let mut k: usize = 0;
    while k < n
        invariant
            n == ev.len(),
            ev == req.headers.entry_views(),
            0 <= k <= n,
            builder_method_of(builder) == req.method@,
            builder_uri_of(builder) == req.target@,
            builder_body_of(builder) == req.body@,
            builder_headers_of(builder) == map_of(ev.take(k as int)),
        decreases n - k,
    {
        let p = req.headers.entry_at(k);
        builder.add_header(p.0.clone(), p.1.clone());
        proof {
            assert(ev.take(k + 1).drop_last() =~= ev.take(k as int));
            assert(ev.take(k + 1).last() == ev[k as int]);
        }
        k += 1;
    }
    proof {
        assert(ev.take(n as int) =~= ev);
    }
    builder
}

/// Hand a parsed request to the registered router and take the answer
/// apart into plain values.  The builder handed over provably holds
/// exactly the request's method, target, header mapping and body; what
/// comes back depends on the router alone, and whatever it answers, the
/// result is a well-formed response.
pub fn dispatch(req: &ParsedRequest) -> (r: ParsedResponse)
    requires
        req.wf(),
    ensures
        r.wf(),
{
    let mut builder = fill_builder(req);
    let answer = route(&mut builder);
    let code = answer.get_code();
    let pairs = response_header_pairs(&answer);
    let body = answer.get_body();
    ParsedResponse::from_parts(code, pairs, body)
}

/// The whole compute step of one connection: parse the buffered message,
/// dispatch it, and serialize the response.  Fails exactly when the parse
/// fails, with the parse's own error, and never reaches the router then;
/// on success the router was handed exactly the parsed components (the
/// contract of `fill_builder`), and the wire text is exactly the
/// serialization of the response the router gave.
pub fn handle_message(raw: &str) -> (r: Result<(ParsedResponse, String), ParseError>)
    ensures
        match r {
            Ok(p) => spec_parse_request(raw@) is Ok && p.0.wf() && p.1@ == spec_serialize_response(
                p.0,
            ),
            Err(e) => spec_parse_request(raw@) == Err::<RequestParts, ParseError>(e),
        },
{
    match parse_request(raw) {
        Err(e) => Err(e),
        Ok(req) => {
            let resp = dispatch(&req);
            let wire = serialize_response(&resp);
            Ok((resp, wire))
        },
    }
}

/// The connection-local answer to a malformed request: a 400 response
/// with no headers of its own, whose body names the failure, already
/// serialized.
pub fn bad_request_response(e: ParseError) -> (r: (ParsedResponse, String))
    ensures
        r.0.wf(),
        r.0.code == 400,
        r.0.body@ == e.spec_message(),
        r.0.headers.entry_views() == Seq::<(Seq<char>, Seq<char>)>::empty(),
        r.1@ == spec_serialize_response(r.0),
{
    let mut resp = ParsedResponse::new(400);
    resp.body = e.message().to_owned();
    let wire = serialize_response(&resp);
    (resp, wire)
}

} // verus!
