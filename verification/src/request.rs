//! The HTTP/1.1 request parser. It works on the bytes already read from the
//! connection: the request line, the header lines up to the empty line, and
//! a body of exactly `Content-Length` bytes when that header names a
//! positive number. A zero, absent or unreadable `Content-Length` leaves the
//! body absent, not empty.

use vstd::prelude::*;

use crate::bytes::{
    assoc_insert, pairs_view, spec_assoc_get, spec_assoc_insert, spec_parse_usize,
    spec_split_first, spec_trim, spec_trim_end, lemma_split_first_len, parse_usize,
    split_once_byte, trim_bytes, trim_end_bytes,
};
use crate::method::{spec_method_of, Method};
use crate::route::{spec_cleaned, spec_route_params, Route};
use crate::segments::spec_segments;

verus! {

/// The byte value of the space.
pub const SPACE: u8 = 32;

/// The byte value of the line feed.
pub const LF: u8 = 10;

/// The byte value of the carriage return.
pub const CR: u8 = 13;

/// The byte value of `:`.
pub const COLON: u8 = 58;

/// Why a request could not be parsed.
#[derive(Debug, PartialEq, Eq, Structural, Clone, Copy)]
pub enum ParseError {
    /// The stream held no request line at all.
    NoData,
    /// The request line held no path token after the method.
    MissingRoute,
    /// Fewer body bytes arrived than `Content-Length` named.
    BodyTooShort,
}

/// The bytes of a line starting at `pos`, up to but without the first line
/// feed; the rest of the data when none follows.
pub open spec fn spec_raw_line(data: Seq<u8>, pos: int) -> Seq<u8> {
    match spec_split_first(data.skip(pos), LF) {
        Some((a, _)) => a,
        None => data.skip(pos),
    }
}

/// Where reading continues after the line at `pos`: past its line feed, or
/// at the end of the data.
pub open spec fn spec_next_pos(data: Seq<u8>, pos: int) -> int {
    match spec_split_first(data.skip(pos), LF) {
        Some((a, _)) => pos + a.len() + 1,
        None => data.len() as int,
    }
}

/// The line at `pos` with a final carriage return removed.
pub open spec fn spec_line(data: Seq<u8>, pos: int) -> Seq<u8> {
    let l = spec_raw_line(data, pos);
    if l.len() > 0 && l.last() == CR {
        l.drop_last()
    } else {
        l
    }
}

/// Reads the line at `pos`: its bytes without the terminator, and where the
/// next line starts.
fn read_line(data: &[u8], pos: usize) -> (r: (Vec<u8>, usize))
    requires
        pos <= data@.len(),
    ensures
        r.0@ == spec_line(data@, pos as int),
        r.1 == spec_next_pos(data@, pos as int),
        pos as int <= r.1 <= data@.len(),
        pos < data@.len() ==> r.1 > pos,
{
    let rest: &[u8] = &data[pos..data.len()];
    proof {
        assert(rest@ =~= data@.skip(pos as int));
        lemma_split_first_len(data@.skip(pos as int), LF);
    }
    let (raw, next): (&[u8], usize) = match split_once_byte(rest, LF) {
        Some((a, _)) => (a, pos + a.len() + 1),
        None => (rest, data.len()),
    };
    let mut line: Vec<u8> = vstd::slice::slice_to_vec(raw);
    if line.len() > 0 && line[line.len() - 1] == CR {
        let popped = line.pop();
    }
    (line, next)
}

/// The header lines from `pos` on, folded into `acc` in order: each line up
/// to the blank one is split at its first `:`, the name keeping its exact
/// spelling, the value trimmed; a line without `:` is skipped. The second
/// component is where the body starts.
pub open spec fn spec_header_section(
    data: Seq<u8>,
    pos: int,
    acc: Seq<(Seq<u8>, Seq<u8>)>,
) -> (Seq<(Seq<u8>, Seq<u8>)>, int)
    decreases data.len() - pos,
    via spec_header_section_dec
{
    if pos < 0 || pos >= data.len() {
        (acc, data.len() as int)
    } else {
        let line = spec_trim_end(spec_raw_line(data, pos));
        let next = spec_next_pos(data, pos);
        if line.len() == 0 {
            (acc, next)
        } else {
            let acc2 = match spec_split_first(line, COLON) {
                Some((k, v)) => spec_assoc_insert(acc, k, spec_trim(v)),
                None => acc,
            };
            spec_header_section(data, next, acc2)
        }
    }
}

#[via_fn]
proof fn spec_header_section_dec(data: Seq<u8>, pos: int, acc: Seq<(Seq<u8>, Seq<u8>)>) {
    if 0 <= pos < data.len() {
        lemma_split_first_len(data.skip(pos), LF);
    }
}

/// The method token of a request line: everything before the first space.
pub open spec fn spec_method_token(line: Seq<u8>) -> Seq<u8> {
    match spec_split_first(line, SPACE) {
        Some((a, _)) => a,
        None => line,
    }
}

/// The raw path token of a request line: the second space-separated token;
/// anything after a further space, such as the protocol version, is
/// ignored. Nothing when the line has no second token.
pub open spec fn spec_route_token(line: Seq<u8>) -> Option<Seq<u8>> {
    match spec_split_first(line, SPACE) {
        None => None,
        Some((_, rest)) => Some(
            match spec_split_first(rest, SPACE) {
                Some((b, _)) => b,
                None => rest,
            },
        ),
    }
}

/// The header name `Content-Length`, looked up by this exact spelling.
pub open spec fn content_length_name() -> Seq<u8> {
    seq![67u8, 111u8, 110u8, 116u8, 101u8, 110u8, 116u8, 45u8, 76u8, 101u8, 110u8, 103u8, 116u8, 104u8]
}

/// How many body bytes a header list calls for: the `Content-Length` value
/// when it parses as a number, else none.
pub open spec fn spec_content_length(headers: Seq<(Seq<u8>, Seq<u8>)>) -> int {
    match spec_assoc_get(headers, content_length_name()) {
        Some(v) => match spec_parse_usize(v) {
            Some(n) => n as int,
            None => 0,
        },
        None => 0,
    }
}

/// A parsed request: its method, its route, its headers as received, the
/// path variables the router binds after lookup, and its body.
#[derive(Debug)]
pub struct Request {
    /// The request's method.
    pub method: Method,
    /// The request's route, parsed from the path token.
    pub route: Route,
    /// The headers, name to trimmed value, names in their wire spelling.
    pub headers: Vec<(Vec<u8>, Vec<u8>)>,
    /// The path variables, bound by the router after lookup.
    pub variables: Vec<(Vec<u8>, Vec<u8>)>,
    /// The body; absent when `Content-Length` was missing, zero or
    /// unreadable.
    pub body: Option<Vec<u8>>,
}

impl Request {
    /// Parses one request from the bytes of a connection.
    pub fn parse_request(data: &[u8]) -> (r: Result<Request, ParseError>)
        ensures
            ({
                let line = spec_line(data@, 0);
                let hs = spec_header_section(data@, spec_next_pos(data@, 0), Seq::empty());
                let headers = hs.0;
                let body_pos = hs.1;
                let cl = spec_content_length(headers);
                if line.len() == 0 {
                    r == Err::<Request, ParseError>(ParseError::NoData)
                } else {
                    match spec_route_token(line) {
                        None => r == Err::<Request, ParseError>(ParseError::MissingRoute),
                        Some(tok) => {
                            if cl > 0 && body_pos + cl > data@.len() {
                                r == Err::<Request, ParseError>(ParseError::BodyTooShort)
                            } else {
                                (r matches Ok(req) && {
                                    &&& req.method@ == spec_method_of(spec_method_token(line))
                                    &&& req.route.init_route@ == tok
                                    &&& req.route.cleaned_route@ == spec_cleaned(
                                        spec_segments(tok),
                                    )
                                    &&& pairs_view(req.route.params@) == spec_route_params(
                                        spec_segments(tok),
                                    )
                                    &&& pairs_view(req.headers@) == headers
                                    &&& req.variables@.len() == 0
                                    &&& (cl > 0 ==> (req.body matches Some(b) && b@
                                        == data@.subrange(body_pos, body_pos + cl)))
                                    &&& (cl == 0 ==> req.body is None)
                                })
                            }
                        },
                    }
                }
            }),
    {
        let (line, mut pos) = read_line(data, 0);
        if line.len() == 0 {
            return Err(ParseError::NoData);
        }
        let line_slice: &[u8] = line.as_slice();
        let (method_tok, after): (&[u8], Option<&[u8]>) = match split_once_byte(
            line_slice,
            SPACE,
        ) {
            Some((a, rest)) => (a, Some(rest)),
            None => (line_slice, None),
        };
        let method = Method::from_token(method_tok);
        let route_tok: &[u8] = match after {
            None => {
                return Err(ParseError::MissingRoute);
            },
            Some(rest) => match split_once_byte(rest, SPACE) {
                Some((b, _)) => b,
                None => rest,
            },
        };
        let route = Route::parse_route(vstd::slice::slice_to_vec(route_tok));
        let ghost hs = spec_header_section(data@, pos as int, Seq::<(Seq<u8>, Seq<u8>)>::empty());
        let mut headers: Vec<(Vec<u8>, Vec<u8>)> = Vec::new();
        proof {
            assert(pairs_view(headers@) =~= Seq::<(Seq<u8>, Seq<u8>)>::empty());
        }
        let mut done: bool = false;
        while !done
            invariant
                pos <= data@.len(),
                !done ==> spec_header_section(data@, pos as int, pairs_view(headers@)) == hs,
                done ==> pairs_view(headers@) == hs.0 && pos as int == hs.1,
            decreases (if done {
                0int
            } else {
                1int
            }), data@.len() - pos,
        {
            if pos >= data.len() {
                done = true;
            } else {
                let (raw, next) = read_line(data, pos);
                let hline = trim_end_bytes(raw.as_slice());
                proof {
                    assert(spec_trim_end(spec_line(data@, pos as int)) == spec_trim_end(
                        spec_raw_line(data@, pos as int),
                    ));
                }
                if hline.len() == 0 {
                    pos = next;
                    done = true;
                } else {
                    match split_once_byte(hline.as_slice(), COLON) {
                        Some((k, v)) => {
                            let key: Vec<u8> = vstd::slice::slice_to_vec(k);
                            let value = trim_bytes(v);
                            assoc_insert(&mut headers, key, value);
                        },
                        None => {
                        },
                    }
                    pos = next;
                }
            }
        }
        let content_length: usize = match crate::bytes::assoc_get(
            &headers,
            &content_length_vec(),
        ) {
            Some(v) => match parse_usize(v.as_slice()) {
                Some(n) => n,
                None => 0,
            },
            None => 0,
        };
        let body: Option<Vec<u8>> = if content_length > 0 {
            if data.len() < content_length || pos > data.len() - content_length {
                return Err(ParseError::BodyTooShort);
            }
            let mut b: Vec<u8> = Vec::new();
            b.extend_from_slice(&data[pos..pos + content_length]);
            proof {
                assert(b@ =~= data@.subrange(pos as int, pos + content_length));
            }
            Some(b)
        } else {
            None
        };
        Ok(Request { method, route, headers, variables: Vec::new(), body })
    }
}

/// The exact wire spelling of the `Content-Length` header name.
fn content_length_vec() -> (r: Vec<u8>)
    ensures
        r@ == content_length_name(),
{
    let r: Vec<u8> = vec![
        67u8, 111u8, 110u8, 116u8, 101u8, 110u8, 116u8, 45u8, 76u8, 101u8, 110u8, 103u8, 116u8,
        104u8,
    ];
    proof {
        assert(r@ =~= content_length_name());
    }
    r
}

} // verus!
