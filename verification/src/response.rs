//! The response and its serialization into wire format.

use vstd::prelude::*;
use crate::headers::{HeaderMap, spec_insert_pairs};
use crate::status::{spec_reason, code_to_text};

verus! {

/// A response to be written back: numeric status code, header mapping and
/// body.
#[derive(Debug)]
pub struct ParsedResponse {
    pub code: i32,
    pub headers: HeaderMap,
    pub body: String,
}

impl ParsedResponse {
    /// Well-formed: the header mapping holds each key once.
    pub open spec fn wf(&self) -> bool {
        self.headers.wf()
    }

    /// A response with the given code, no headers and an empty body.
    pub fn new(code: i32) -> (r: ParsedResponse)
        ensures
            r.wf(),
            r.code == code,
            r.body@ == Seq::<char>::empty(),
            r.headers.entry_views() == Seq::<(Seq<char>, Seq<char>)>::empty(),
    {
        ParsedResponse { code, headers: HeaderMap::new(), body: String::new() }
    }

    /// A response assembled from plain parts; a later pair with the same
    /// key overwrites an earlier one.
    pub fn from_parts(code: i32, pairs: Vec<(String, String)>, body: String) -> (r: ParsedResponse)
        ensures
            r.wf(),
            r.code == code,
            r.body@ == body@,
            r.headers@ == spec_insert_pairs(
                Map::<Seq<char>, Seq<char>>::empty(),
                pairs@.map_values(|p: (String, String)| (p.0@, p.1@)),
            ),
    {
        let ghost all = pairs@.map_values(|p: (String, String)| (p.0@, p.1@));
        let mut headers = HeaderMap::new();
        let n = pairs.len();
        proof {
            assert(all.subrange(0, n as int) =~= all);
        }
        let mut k: usize = 0;
        while k < n
            invariant
                n == pairs@.len(),
                all == pairs@.map_values(|p: (String, String)| (p.0@, p.1@)),
                0 <= k <= n,
                headers.wf(),
                spec_insert_pairs(headers@, all.subrange(k as int, n as int)) == spec_insert_pairs(
                    Map::<Seq<char>, Seq<char>>::empty(),
                    all,
                ),
            decreases n - k,
        {
            let ghost m0 = headers@;
            let key = pairs[k].0.clone();
            let value = pairs[k].1.clone();
            headers.insert(key, value);
            proof {
                let remaining = all.subrange(k as int, n as int);
                assert(remaining[0] == all[k as int]);
                assert(remaining.drop_first() =~= all.subrange(k + 1, n as int));
                assert(spec_insert_pairs(m0, remaining) == spec_insert_pairs(
                    m0.insert(remaining[0].0, remaining[0].1),
                    remaining.drop_first(),
                ));
            }
            k += 1;
        }
        proof {
            assert(all.subrange(n as int, n as int) =~= Seq::<(Seq<char>, Seq<char>)>::empty());
        }
        ParsedResponse { code, headers, body }
    }
}

/// The character for one decimal digit.
pub open spec fn spec_digit_char(d: int) -> char {
    if d == 0 {
        '0'
    } else if d == 1 {
        '1'
    } else if d == 2 {
        '2'
    } else if d == 3 {
        '3'
    } else if d == 4 {
        '4'
    } else if d == 5 {
        '5'
    } else if d == 6 {
        '6'
    } else if d == 7 {
        '7'
    } else if d == 8 {
        '8'
    } else {
        '9'
    }
}

/// The decimal digits of a nonnegative number, most significant first.
pub open spec fn spec_udigits(n: int) -> Seq<char>
    decreases n,
{
    if n < 10 {
        seq![spec_digit_char(n)]
    } else {
        spec_udigits(n / 10).push(spec_digit_char(n % 10))
    }
}

/// The decimal rendering of a status code, with a sign for a negative one.
pub open spec fn spec_code_chars(c: int) -> Seq<char> {
    if c < 0 {
        seq!['-'] + spec_udigits(-c)
    } else {
        spec_udigits(c)
    }
}

/// One header entry per line, key and value separated by a colon and one
/// space, in entry order.
pub open spec fn spec_header_block(ps: Seq<(Seq<char>, Seq<char>)>) -> Seq<char>
    decreases ps.len(),
{
    if ps.len() == 0 {
        Seq::empty()
    } else {
        spec_header_block(ps.drop_last()) + ps.last().0 + ": "@ + ps.last().1 + "\r\n"@
    }
}

/// The wire form of a response: the status line with the code's reason
/// phrase, the fixed server header, the header entries in order, a blank
/// line, and the body verbatim.  No content length is synthesized; the
/// client infers the body's end from the connection closing.
pub open spec fn spec_serialize_response(resp: ParsedResponse) -> Seq<char> {
    "HTTP/1.1 "@ + spec_code_chars(resp.code as int) + " "@ + spec_reason(resp.code as int)
        + "\r\n"@ + "Server: Gato Framework\r\n"@ + spec_header_block(resp.headers.entry_views())
        + "\r\n"@ + resp.body@
}

/// A static string for one decimal digit.
fn digit_str(d: u64) -> (r: &'static str)
    requires
        d < 10,
    ensures
        r@ == seq![spec_digit_char(d as int)],
{
    let r: &'static str = match d {
        0 => "0",
        1 => "1",
        2 => "2",
        3 => "3",
        4 => "4",
        5 => "5",
        6 => "6",
        7 => "7",
        8 => "8",
        _ => "9",
    };
    proof {
        reveal_strlit("0");
        reveal_strlit("1");
        reveal_strlit("2");
        reveal_strlit("3");
        reveal_strlit("4");
        reveal_strlit("5");
        reveal_strlit("6");
        reveal_strlit("7");
        reveal_strlit("8");
        reveal_strlit("9");
        assert(r@ =~= seq![spec_digit_char(d as int)]);
    }
    r
}

/// Append the decimal digits of `n` to `out`.
fn push_digits(n: u64, out: &mut String)
    ensures
        final(out)@ == old(out)@ + spec_udigits(n as int),
    decreases n,
{
    if n < 10 {
        out.append(digit_str(n));
        proof {
            assert(final(out)@ =~= old(out)@ + spec_udigits(n as int));
        }
    } else {
        push_digits(n / 10, out);
        out.append(digit_str(n % 10));
        proof {
            assert(final(out)@ =~= old(out)@ + spec_udigits(n as int));
        }
    }
}

/// The decimal rendering of `code`.
fn code_string(code: i32) -> (r: String)
    ensures
        r@ == spec_code_chars(code as int),
{
    let mut out = String::new();
    if code < 0 {
        out.append("-");
        proof {
            reveal_strlit("-");
        }
        let mag = (-(code as i64)) as u64;
        push_digits(mag, &mut out);
        proof {
            assert(out@ =~= spec_code_chars(code as int));
        }
    } else {
        push_digits(code as u64, &mut out);
    }
    out
}

/// Serialize a response into its wire form.
#[verifier::loop_isolation(false)]
pub fn serialize_response(resp: &ParsedResponse) -> (r: String)
    ensures
        r@ == spec_serialize_response(*resp),
{
    let mut out = String::new();
    out.append("HTTP/1.1 ");
    let cs = code_string(resp.code);
    out.append(cs.as_str());
    out.append(" ");
    let reason = code_to_text(resp.code);
    out.append(reason.as_str());
    out.append("\r\n");
    out.append("Server: Gato Framework\r\n");
    let ghost prefix = out@;
    let m = resp.headers.len();
    let mut k: usize = 0;
    while k < m
        invariant
            0 <= k <= m,
            out@ == prefix + spec_header_block(resp.headers.entry_views().take(k as int)),
        decreases m - k,
    {
        let p = resp.headers.entry_at(k);
        out.append(p.0.as_str());
        out.append(": ");
        out.append(p.1.as_str());
        out.append("\r\n");
        proof {
            let ev = resp.headers.entry_views();
            assert(ev.take(k + 1).drop_last() =~= ev.take(k as int));
            assert(ev.take(k + 1).last() == ev[k as int]);
            assert(out@ =~= prefix + spec_header_block(ev.take(k + 1)));
        }
        k += 1;
    }
    proof {
        assert(resp.headers.entry_views().take(m as int) =~= resp.headers.entry_views());
    }
    out.append("\r\n");
    out.append(resp.body.as_str());
    proof {
        assert(out@ =~= spec_serialize_response(*resp));
    }
    out
}

} // verus!
