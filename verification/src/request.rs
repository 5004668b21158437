//! The request parser: a request line and header block, read from one
//! byte buffer into a typed request.

use vstd::prelude::*;
use vstd::string::StringSliceAdditionalSpecFns;
use vstd::utf8::{decode_utf8, valid_utf8};
use crate::headers::{spec_headers, Headers};
use crate::method::{spec_method, Method};
use crate::query_string::{spec_query, QueryString};
use crate::text::{chars_eq_str, chars_of, digits_are_one, digits_below_two, find_char, is_digit_seq, lines_of, seq_lower, spec_find, spec_lines, spec_strip_zeros, spec_ws_tokens, split_once, string_of, subvec, vec_lower, ws_tokens};

verus! {

/// Why a byte buffer failed to parse as a request.
#[derive(Copy, Clone, Debug, PartialEq, Eq, Structural)]
pub enum ParseError {
    Request,
    Encoding,
    Protocol,
    Method,
}

impl ParseError {
    /// The diagnostic text of this error.
    pub fn message(&self) -> (r: &'static str)
        ensures
            r@ == match *self {
                ParseError::Request => "Invalid Request"@,
                ParseError::Encoding => "Invalid Encoding"@,
                ParseError::Protocol => "Invalid Protocol"@,
                ParseError::Method => "Invalid Method"@,
            },
    {
        match self {
            ParseError::Request => "Invalid Request",
            ParseError::Encoding => "Invalid Encoding",
            ParseError::Protocol => "Invalid Protocol",
            ParseError::Method => "Invalid Method",
        }
    }
}

/// Relies on `core::str::from_utf8`: returns the string whose UTF-8
/// encoding is exactly the given bytes, and fails exactly on bytes
/// that are not valid UTF-8.
#[verifier::external_body]
fn utf8_to_str(bytes: &[u8]) -> (r: Option<&str>)
    ensures
        match r {
            Some(s) => s.spec_bytes() == bytes@,
            None => !valid_utf8(bytes@),
        },
{
    core::str::from_utf8(bytes).ok()
}

/// Whether a protocol token is accepted: `http/` in any letter case,
/// then a major version with value one, a dot, and a minor version
/// with value zero or one, both written in decimal digits.
pub open spec fn spec_protocol_ok(s: Seq<char>) -> bool {
    let l = seq_lower(s);
    l.len() > 5 && l.subrange(0, 5) == "http/"@ && {
        let rest = l.subrange(5, l.len() as int);
        match spec_find(rest, '.', 0) {
            Some(i) => is_digit_seq(rest.subrange(0, i)) && spec_strip_zeros(rest.subrange(0, i))
                == seq!['1'] && is_digit_seq(rest.subrange(i + 1, rest.len() as int)) && (
            spec_strip_zeros(rest.subrange(i + 1, rest.len() as int)) == Seq::<char>::empty()
                || spec_strip_zeros(rest.subrange(i + 1, rest.len() as int)) == seq!['1']),
            None => false,
        }
    }
}

/// Whether `v` is an accepted protocol token.
pub fn protocol_ok(v: &Vec<char>) -> (r: bool)
    ensures
        r == spec_protocol_ok(v@),
{
    let l = vec_lower(v);
    if l.len() < 6 {
        return false;
    }
    let prefix = subvec(&l, 0, 5);
    if !chars_eq_str(&prefix, "http/") {
        return false;
    }
    let rest = subvec(&l, 5, l.len());
    match find_char(&rest, '.', 0) {
        Some(i) => digits_are_one(&rest, 0, i) && digits_below_two(&rest, i + 1, rest.len()),
        None => false,
    }
}

/// The parsed form of a request, over character sequences.
pub struct RequestModel {
    pub method: Method,
    pub path: Seq<char>,
    pub query: Option<Seq<(Seq<char>, Seq<Seq<char>>)>>,
    pub headers: Option<Seq<(Seq<char>, Seq<Seq<char>>)>>,
}

/// What parsing a byte buffer gives: the bytes are decoded as UTF-8
/// (else `Encoding`); the first line must hold three
/// whitespace-separated tokens (else `Request`): a method, a target,
/// and a protocol accepted by `spec_protocol_ok` (else `Protocol`); the
/// method token must name one of the nine methods (else `Method`). The
/// target splits at its first `?` into the path and the raw query; an
/// empty query or header map is left out.
pub open spec fn spec_parse(bytes: Seq<u8>) -> Result<RequestModel, ParseError> {
    if !valid_utf8(bytes) {
        Err(ParseError::Encoding)
    } else {
        let lines = spec_lines(decode_utf8(bytes));
        if lines.len() == 0 {
            Err(ParseError::Request)
        } else {
            let toks = spec_ws_tokens(lines[0]);
            if toks.len() < 3 {
                Err(ParseError::Request)
            } else if !spec_protocol_ok(toks[2]) {
                Err(ParseError::Protocol)
            } else {
                match spec_method(toks[0]) {
                    None => Err(ParseError::Method),
                    Some(m) => {
                        let target = toks[1];
                        let pq = match spec_find(target, '?', 0) {
                            Some(i) => (
                                target.subrange(0, i),
                                Some(target.subrange(i + 1, target.len() as int)),
                            ),
                            None => (target, None::<Seq<char>>),
                        };
                        let query = match pq.1 {
                            None => None,
                            Some(qs) => if spec_query(qs).len() == 0 {
                                None
                            } else {
                                Some(spec_query(qs))
                            },
                        };
                        let headers = if spec_headers(lines, 1).len() == 0 {
                            None
                        } else {
                            Some(spec_headers(lines, 1))
                        };
                        Ok(RequestModel { method: m, path: pq.0, query, headers })
                    },
                }
            }
        }
    }
}

/// A parsed request: its method, the path of its target, and its
/// parsed query and headers where they are not empty.
#[derive(Debug)]
pub struct Request {
    pub method: Method,
    pub path: String,
    pub query: Option<QueryString>,
    pub headers: Option<Headers>,
}

impl Request {
    /// The query and header maps are well formed.
    pub open spec fn wf(self) -> bool {
        &&& match self.query {
            Some(q) => q.wf(),
            None => true,
        }
        &&& match self.headers {
            Some(h) => h.wf(),
            None => true,
        }
    }

    /// Whether this request carries exactly the parsed form `m`.
    pub open spec fn matches_model(self, m: RequestModel) -> bool {
        &&& self.method == m.method
        &&& self.path@ == m.path
        &&& match (self.query, m.query) {
            (None, None) => true,
            (Some(q), Some(qm)) => q@ == qm,
            _ => false,
        }
        &&& match (self.headers, m.headers) {
            (None, None) => true,
            (Some(h), Some(hm)) => h@ == hm,
            _ => false,
        }
    }

    /// Parses one request from the bytes of its header block.
    pub fn parse(buf: &[u8]) -> (r: Result<Request, ParseError>)
        ensures
            match (r, spec_parse(buf@)) {
                (Ok(req), Ok(m)) => req.matches_model(m) && req.wf(),
                (Err(e), Err(em)) => e == em,
                _ => false,
            },
    {
        let s = match utf8_to_str(buf) {
            Some(s) => s,
            None => {
                return Err(ParseError::Encoding);
            },
        };
        proof {
            vstd::utf8::encode_utf8_valid_utf8(s@);
            vstd::utf8::encode_utf8_decode_utf8(s@);
            assert(valid_utf8(buf@));
            assert(decode_utf8(buf@) == s@);
        }
        let chars = chars_of(s);
        let lines = lines_of(&chars);
        proof {
            assert(lines.deep_view().len() == lines@.len());
        }
        if lines.len() == 0 {
            return Err(ParseError::Request);
        }
        proof {
            assert(lines.deep_view()[0] == lines@[0]@);
        }
        let toks = ws_tokens(&lines[0]);
        proof {
            assert(toks.deep_view().len() == toks@.len());
        }
        if toks.len() < 3 {
            return Err(ParseError::Request);
        }
        proof {
            assert(toks.deep_view()[0] == toks@[0]@);
            assert(toks.deep_view()[1] == toks@[1]@);
            assert(toks.deep_view()[2] == toks@[2]@);
        }
        if !protocol_ok(&toks[2]) {
            return Err(ParseError::Protocol);
        }
        let method_token = string_of(&toks[0]);
        let method = match Method::from_str(method_token.as_str()) {
            Ok(m) => m,
            Err(_) => {
                return Err(ParseError::Method);
            },
        };
        let (path_chars, query_chars) = split_once(&toks[1], '?');
        let query = match query_chars {
            Some(q) => QueryString::parse(&q),
            None => None,
        };
        let headers = Headers::parse(&lines, 1);
        let path = string_of(&path_chars);
        Ok(Request { method, path, query, headers })
    }

    /// The request method.
    pub fn method(&self) -> (r: &Method)
        ensures
            *r == self.method,
    {
        &self.method
    }

    /// The path of the request target.
    pub fn path(&self) -> (r: &str)
        ensures
            r@ == self.path@,
    {
        self.path.as_str()
    }

    /// The parsed headers, where the request had any.
    pub fn headers(&self) -> (r: Option<&Headers>)
        ensures
            match self.headers {
                Some(h) => r is Some && *r.unwrap() == h,
                None => r is None,
            },
    {
        self.headers.as_ref()
    }

    /// The parsed query, where the target had one.
    pub fn query(&self) -> (r: Option<&QueryString>)
        ensures
            match self.query {
                Some(q) => r is Some && *r.unwrap() == q,
                None => r is None,
            },
    {
        self.query.as_ref()
    }
}

} // verus!
