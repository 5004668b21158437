//! The HTTP request methods and their parsing from a request-line token.

use vstd::prelude::*;
use crate::text::{chars_eq_str, chars_of, seq_upper, spec_trim, trim, vec_upper};

verus! {

/// An HTTP request method.
#[derive(Copy, Clone, Debug, PartialEq, Eq, Structural)]
#[allow(clippy::upper_case_acronyms)]
pub enum Method {
    GET,
    DELETE,
    POST,
    PUT,
    HEAD,
    CONNECT,
    OPTIONS,
    TRACE,
    PATCH,
}

/// The error of parsing an unknown method name.
#[derive(Debug)]
pub struct MethodError;

/// The method named by `s`: the token is trimmed of ASCII whitespace and
/// upper-cased, then matched against the nine method names.
pub open spec fn spec_method(s: Seq<char>) -> Option<Method> {
    let t = seq_upper(spec_trim(s));
    if t == "GET"@ {
        Some(Method::GET)
    } else if t == "DELETE"@ {
        Some(Method::DELETE)
    } else if t == "POST"@ {
        Some(Method::POST)
    } else if t == "PUT"@ {
        Some(Method::PUT)
    } else if t == "HEAD"@ {
        Some(Method::HEAD)
    } else if t == "CONNECT"@ {
        Some(Method::CONNECT)
    } else if t == "OPTIONS"@ {
        Some(Method::OPTIONS)
    } else if t == "TRACE"@ {
        Some(Method::TRACE)
    } else if t == "PATCH"@ {
        Some(Method::PATCH)
    } else {
        None
    }
}

impl Method {
    /// Parses a method name, tolerating surrounding whitespace and any
    /// letter case.
    pub fn from_str(s: &str) -> (r: Result<Method, MethodError>)
        ensures
            match r {
                Ok(m) => spec_method(s@) == Some(m),
                Err(_) => spec_method(s@) is None,
            },
    {
        let chars = chars_of(s);
        let t = vec_upper(&trim(&chars));
        if chars_eq_str(&t, "GET") {
            Ok(Method::GET)
        } else if chars_eq_str(&t, "DELETE") {
            Ok(Method::DELETE)
        } else if chars_eq_str(&t, "POST") {
            Ok(Method::POST)
        } else if chars_eq_str(&t, "PUT") {
            Ok(Method::PUT)
        } else if chars_eq_str(&t, "HEAD") {
            Ok(Method::HEAD)
        } else if chars_eq_str(&t, "CONNECT") {
            Ok(Method::CONNECT)
        } else if chars_eq_str(&t, "OPTIONS") {
            Ok(Method::OPTIONS)
        } else if chars_eq_str(&t, "TRACE") {
            Ok(Method::TRACE)
        } else if chars_eq_str(&t, "PATCH") {
            Ok(Method::PATCH)
        } else {
            Err(MethodError)
        }
    }

    /// The canonical name of a method.
    pub open spec fn spec_name(self) -> Seq<char> {
        match self {
            Method::GET => "GET"@,
            Method::DELETE => "DELETE"@,
            Method::POST => "POST"@,
            Method::PUT => "PUT"@,
            Method::HEAD => "HEAD"@,
            Method::CONNECT => "CONNECT"@,
            Method::OPTIONS => "OPTIONS"@,
            Method::TRACE => "TRACE"@,
            Method::PATCH => "PATCH"@,
        }
    }

    /// The canonical name of this method.
    pub fn as_str(&self) -> (r: &'static str)
        ensures
            r@ == self.spec_name(),
    {
        match self {
            Method::GET => "GET",
            Method::DELETE => "DELETE",
            Method::POST => "POST",
            Method::PUT => "PUT",
            Method::HEAD => "HEAD",
            Method::CONNECT => "CONNECT",
            Method::OPTIONS => "OPTIONS",
            Method::TRACE => "TRACE",
            Method::PATCH => "PATCH",
        }
    }
}

} // verus!
