//! Parsing a raw message into method, target, protocol version, header
//! mapping and body.

use vstd::prelude::*;
use crate::scan::{spec_find, lemma_spec_find, find_str};
use crate::headers::{HeaderMap, spec_parse_headers, parse_header};

verus! {

/// Why a raw message fails to parse.
#[derive(PartialEq, Eq, Structural, Clone, Copy, Debug)]
pub enum ParseError {
    /// The blank-line boundary between header section and body is missing.
    MissingBoundary,
    /// The header section holds no line break after the request line.
    MissingRequestLineBreak,
    /// The request line holds fewer than two space-separated tokens.
    BadRequestLine,
}

impl ParseError {
    /// The description a parse failure is reported with.
    pub open spec fn spec_message(&self) -> Seq<char> {
        match self {
            ParseError::MissingBoundary => "missing header/body boundary"@,
            ParseError::MissingRequestLineBreak => "missing line break after request line"@,
            ParseError::BadRequestLine => "request line has fewer than two tokens"@,
        }
    }

    /// The description as text.
    pub fn message(&self) -> (r: &'static str)
        ensures
            r@ == self.spec_message(),
    {
        match self {
            ParseError::MissingBoundary => "missing header/body boundary",
            ParseError::MissingRequestLineBreak => "missing line break after request line",
            ParseError::BadRequestLine => "request line has fewer than two tokens",
        }
    }
}

/// The components of a parsed request, as character sequences.
pub struct RequestParts {
    pub method: Seq<char>,
    pub target: Seq<char>,
    pub version: Seq<char>,
    pub headers: Map<Seq<char>, Seq<char>>,
    pub body: Seq<char>,
}

/// The request line split on spaces: the first token is the method, the
/// second the target, and whatever follows the second space the version
/// (empty when the line stops at the target).  A line without a space has
/// fewer than two tokens and yields nothing.
pub open spec fn spec_split_request_line(line: Seq<char>) -> Option<
    (Seq<char>, Seq<char>, Seq<char>),
> {
    match spec_find(line, " "@) {
        None => None,
        Some(i) => {
            let method = line.subrange(0, i);
            let rest = line.subrange(i + 1, line.len() as int);
            match spec_find(rest, " "@) {
                None => Some((method, rest, Seq::empty())),
                Some(j) => Some(
                    (method, rest.subrange(0, j), rest.subrange(j + 1, rest.len() as int)),
                ),
            }
        },
    }
}

/// The whole parse: split at the first blank-line boundary into header
/// section and body, split the header section at its first line break into
/// request line and header lines, split the request line on spaces, and
/// parse the header lines into the header mapping.
pub open spec fn spec_parse_request(s: Seq<char>) -> Result<RequestParts, ParseError> {
    match spec_find(s, "\r\n\r\n"@) {
        None => Err(ParseError::MissingBoundary),
        Some(b) => {
            let head = s.subrange(0, b);
            let body = s.subrange(b + 4, s.len() as int);
            match spec_find(head, "\r\n"@) {
                None => Err(ParseError::MissingRequestLineBreak),
                Some(i) => {
                    let line = head.subrange(0, i);
                    let header_text = head.subrange(i + 2, head.len() as int);
                    match spec_split_request_line(line) {
                        None => Err(ParseError::BadRequestLine),
                        Some(t) => Ok(
                            RequestParts {
                                method: t.0,
                                target: t.1,
                                version: t.2,
                                headers: spec_parse_headers(header_text),
                                body,
                            },
                        ),
                    }
                },
            }
        },
    }
}

/// A message without the blank-line boundary parses to the
/// missing-boundary error: it is rejected as malformed, never anything
/// else, so a caller that answers errors locally keeps the connection's
/// fault away from the rest of the process.
pub proof fn lemma_missing_boundary(s: Seq<char>)
    requires
        spec_find(s, "\r\n\r\n"@) is None,
    ensures
        spec_parse_request(s) == Err::<RequestParts, ParseError>(ParseError::MissingBoundary),
{
}

/// A request taken apart: method, target, protocol version, header mapping
/// and body.
#[derive(Debug)]
pub struct ParsedRequest {
    pub method: String,
    pub target: String,
    pub version: String,
    pub headers: HeaderMap,
    pub body: String,
}

impl ParsedRequest {
    /// The components as character sequences.
    pub open spec fn parts(&self) -> RequestParts {
        RequestParts {
            method: self.method@,
            target: self.target@,
            version: self.version@,
            headers: self.headers@,
            body: self.body@,
        }
    }

    /// Well-formed: the header mapping holds each key once.
    pub open spec fn wf(&self) -> bool {
        self.headers.wf()
    }
}

/// Parse a raw message.  Fails exactly when the blank-line boundary is
/// missing, when the header section holds no line break, or when the
/// request line holds fewer than two tokens; on success the components are
/// exactly those that `spec_parse_request` names.
pub fn parse_request(raw: &str) -> (r: Result<ParsedRequest, ParseError>)
    ensures
        match r {
            Ok(req) => spec_parse_request(raw@) == Ok::<RequestParts, ParseError>(req.parts())
                && req.wf(),
            Err(e) => spec_parse_request(raw@) == Err::<RequestParts, ParseError>(e),
        },
{
    let n = raw.unicode_len();
    proof {
        reveal_strlit("\r\n\r\n");
        lemma_spec_find(raw@, "\r\n\r\n"@);
    }
    let b = match find_str(raw, "\r\n\r\n") {
        None => {
            return Err(ParseError::MissingBoundary);
        },
        Some(b) => b,
    };
    let head = raw.substring_char(0, b);
    let body = raw.substring_char(b + 4, n).to_owned();
    proof {
        reveal_strlit("\r\n");
        lemma_spec_find(head@, "\r\n"@);
    }
    let i = match find_str(head, "\r\n") {
        None => {
            return Err(ParseError::MissingRequestLineBreak);
        },
        Some(i) => i,
    };
    let hn = head.unicode_len();
    let line = head.substring_char(0, i);
    let header_text = head.substring_char(i + 2, hn);
    proof {
        reveal_strlit(" ");
        lemma_spec_find(line@, " "@);
    }
    let ln = line.unicode_len();
    let si = match find_str(line, " ") {
        None => {
            return Err(ParseError::BadRequestLine);
        },
        Some(si) => si,
    };
    let method = line.substring_char(0, si).to_owned();
    let rest = line.substring_char(si + 1, ln);
    proof {
        lemma_spec_find(rest@, " "@);
    }
    let rn = rest.unicode_len();
    let (target, version) = match find_str(rest, " ") {
        None => (rest.to_owned(), String::new()),
        Some(j) => {
            (rest.substring_char(0, j).to_owned(), rest.substring_char(j + 1, rn).to_owned())
        },
    };
    let headers = parse_header(header_text);
    Ok(ParsedRequest { method, target, version, headers, body })
}

} // verus!
