//! The query string of a request target: `&`-separated pairs of
//! percent-encoded keys and values, kept in a case-sensitive multi-value
//! map.

use vstd::prelude::*;
use crate::text::{spec_find, spec_split, spec_trim, split_all, split_once, string_of, trim};
use crate::value::{spec_keys, spec_lookup, spec_put, ValueMap};

verus! {

/// What `urlencoding::decode` returns for the given characters, when it
/// succeeds.
pub uninterp spec fn url_decoded(s: Seq<char>) -> Option<Seq<char>>;

/// Relies on `urlencoding::decode`: percent-decoding is a function of
/// the input characters alone; it fails only when the decoded bytes are
/// not valid UTF-8.
#[verifier::external_body]
fn url_decode(s: &str) -> (r: Option<String>)
    ensures
        r is Some <==> url_decoded(s@) is Some,
        r is Some ==> r.unwrap()@ == url_decoded(s@).unwrap(),
{
    match urlencoding::decode(s) {
        Ok(decoded) => Some(decoded.into_owned()),
        Err(_) => None,
    }
}

/// A percent-encoded token after decoding; a token that does not decode
/// is kept as it is.
pub open spec fn spec_decode_or_raw(s: Seq<char>) -> Seq<char> {
    match url_decoded(s) {
        Some(d) => d,
        None => s,
    }
}

/// Decodes a token, keeping it as it is when decoding fails.
fn decode_or_raw(v: &Vec<char>) -> (r: String)
    ensures
        r@ == spec_decode_or_raw(v@),
{
    let s = string_of(v);
    match url_decode(s.as_str()) {
        Some(d) => d,
        None => s,
    }
}

/// The query entries read from the pieces `pieces[pos..]`, added to
/// `m`: each piece is trimmed and split at its first `=`; both sides
/// are trimmed and decoded; a piece that is empty, or whose decoded key
/// is empty, is dropped.
pub open spec fn spec_query_from(
    pieces: Seq<Seq<char>>,
    pos: int,
    m: Seq<(Seq<char>, Seq<Seq<char>>)>,
) -> Seq<(Seq<char>, Seq<Seq<char>>)>
    decreases pieces.len() - pos,
{
    if pos < 0 || pos >= pieces.len() {
        m
    } else {
        let t = spec_trim(pieces[pos]);
        let m2 = if t.len() == 0 {
            m
        } else {
            let kv = match spec_find(t, '=', 0) {
                Some(i) => (
                    spec_decode_or_raw(spec_trim(t.subrange(0, i))),
                    spec_decode_or_raw(spec_trim(t.subrange(i + 1, t.len() as int))),
                ),
                None => (spec_decode_or_raw(spec_trim(t)), spec_decode_or_raw(Seq::empty())),
            };
            if kv.0.len() > 0 {
                spec_put(m, false, kv.0, kv.1)
            } else {
                m
            }
        };
        spec_query_from(pieces, pos + 1, m2)
    }
}

/// The query entries read from the raw query `q`.
pub open spec fn spec_query(q: Seq<char>) -> Seq<(Seq<char>, Seq<Seq<char>>)> {
    spec_query_from(spec_split(q, '&'), 0, Seq::empty())
}

/// The parsed query string of a request target.
#[derive(Debug)]
pub struct QueryString {
    map: ValueMap,
}

impl View for QueryString {
    type V = Seq<(Seq<char>, Seq<Seq<char>>)>;

    closed spec fn view(&self) -> Seq<(Seq<char>, Seq<Seq<char>>)> {
        self.map@
    }
}

impl QueryString {
    /// The keys are compared exactly, and no two entries share a key;
    /// every value of the type satisfies this.
    #[verifier::type_invariant]
    pub closed spec fn wf(&self) -> bool {
        !self.map.is_ci() && self.map.wf()
    }

    /// Parses a raw query string; a query without a single parameter
    /// gives nothing.
    pub fn parse(q: &Vec<char>) -> (r: Option<QueryString>)
        ensures
            ({
                let m = spec_query(q@);
                match r {
                    Some(qs) => m.len() > 0 && qs@ == m && qs.wf(),
                    None => m.len() == 0,
                }
            }),
    {
        let pieces = split_all(q, '&');
        let ghost ps = pieces.deep_view();
        let mut map = ValueMap::new();
        let mut i: usize = 0;
        while i < pieces.len()
            invariant
                i <= pieces.len(),
                ps == pieces.deep_view(),
                ps == spec_split(q@, '&'),
                !map.is_ci(),
                map.wf(),
                spec_query(q@) == spec_query_from(ps, i as int, map@),
            decreases pieces.len() - i,
        {
            let t = trim(&pieces[i]);
            proof {
                assert(ps[i as int] == pieces@[i as int]@);
            }
            if t.len() > 0 {
                let (before, after) = split_once(&t, '=');
                let key_part = trim(&before);
                let val_part = match after {
                    Some(a) => trim(&a),
                    None => Vec::new(),
                };
                let key = decode_or_raw(&key_part);
                let val = decode_or_raw(&val_part);
                proof {
                    crate::text::lemma_find_props(t@, '=', 0);
                    if spec_find(t@, '=', 0) is None {
                        assert(val_part@ =~= Seq::<char>::empty());
                    }
                }
                if !key.as_str().is_empty() {
                    map.put(key, val);
                }
            }
            i = i + 1;
        }
        if map.is_empty() {
            None
        } else {
            Some(QueryString { map })
        }
    }

    /// The keys, in insertion order.
    pub fn keys(&self) -> (r: Vec<String>)
        ensures
            r.deep_view() == spec_keys(self@),
    {
        self.map.keys()
    }

    /// The values stored under `key`, in insertion order, if any.
    pub fn values(&self, key: &str) -> (r: Option<Vec<String>>)
        ensures
            match spec_lookup(self@, false, key@) {
                Some(vs) => r is Some && r.unwrap().deep_view() == vs,
                None => r is None,
            },
    {
        proof {
            use_type_invariant(self);
        }
        self.map.values(key)
    }
}

} // verus!
