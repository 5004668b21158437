//! Request headers: a multi-value map whose names are looked up without
//! regard to ASCII letter case, parsed from the lines after the request
//! line.

use vstd::prelude::*;
use crate::text::{spec_find, spec_trim, split_once, string_of, trim};
use crate::value::{spec_keys, spec_lookup, spec_put, ValueMap};

verus! {

/// The parsed header block of a request.
#[derive(Debug)]
pub struct Headers {
    map: ValueMap,
}

impl View for Headers {
    type V = Seq<(Seq<char>, Seq<Seq<char>>)>;

    closed spec fn view(&self) -> Seq<(Seq<char>, Seq<Seq<char>>)> {
        self.map@
    }
}

/// The name and value of one header line: the parts before and after
/// the first colon, both trimmed; without a colon the whole trimmed
/// line is the name and the value is empty.
pub open spec fn spec_header_kv(t: Seq<char>) -> (Seq<char>, Seq<char>) {
    match spec_find(t, ':', 0) {
        Some(i) => (spec_trim(t.subrange(0, i)), spec_trim(t.subrange(i + 1, t.len() as int))),
        None => (spec_trim(t), Seq::empty()),
    }
}

/// The header entries read from `lines[pos..]`, added to `m`: lines are
/// trimmed and taken until the first empty one; a line with an empty
/// name is dropped.
pub open spec fn spec_headers_from(
    lines: Seq<Seq<char>>,
    pos: int,
    m: Seq<(Seq<char>, Seq<Seq<char>>)>,
) -> Seq<(Seq<char>, Seq<Seq<char>>)>
    decreases lines.len() - pos,
{
    if pos < 0 || pos >= lines.len() {
        m
    } else {
        let t = spec_trim(lines[pos]);
        if t.len() == 0 {
            m
        } else {
            let kv = spec_header_kv(t);
            let m2 = if kv.0.len() > 0 {
                spec_put(m, true, kv.0, kv.1)
            } else {
                m
            };
            spec_headers_from(lines, pos + 1, m2)
        }
    }
}

/// The header entries read from `lines[pos..]`.
pub open spec fn spec_headers(lines: Seq<Seq<char>>, pos: int) -> Seq<(
    Seq<char>,
    Seq<Seq<char>>,
)> {
    spec_headers_from(lines, pos, Seq::empty())
}

impl Headers {
    /// The names are compared without regard to ASCII letter case, and
    /// no two entries share a name; every value of the type satisfies
    /// this.
    #[verifier::type_invariant]
    pub closed spec fn wf(&self) -> bool {
        self.map.is_ci() && self.map.wf()
    }

    /// Parses the header block from `lines[start..]`, stopping at the
    /// first empty line; a block without a single header gives nothing.
    pub fn parse(lines: &Vec<Vec<char>>, start: usize) -> (r: Option<Headers>)
        requires
            start <= lines@.len(),
        ensures
            ({
                let m = spec_headers(lines.deep_view(), start as int);
                match r {
                    Some(h) => m.len() > 0 && h@ == m && h.wf(),
                    None => m.len() == 0,
                }
            }),
    {
        let ghost all = lines.deep_view();
        let mut map = ValueMap::new_case_insensitive();
        let mut i: usize = start;
        loop
            invariant_except_break
                start <= i <= lines@.len(),
                all == lines.deep_view(),
                map.is_ci(),
                map.wf(),
                spec_headers(all, start as int) == spec_headers_from(all, i as int, map@),
            ensures
                map.is_ci(),
                map.wf(),
                map@ == spec_headers(all, start as int),
                all == lines.deep_view(),
            decreases lines@.len() - i,
        {
            if i >= lines.len() {
                break ;
            }
            let t = trim(&lines[i]);
            proof {
                assert(all[i as int] == lines@[i as int]@);
            }
            if t.len() == 0 {
                break ;
            }
            let (before, after) = split_once(&t, ':');
            let key = trim(&before);
            let val = match after {
                Some(a) => trim(&a),
                None => Vec::new(),
            };
            proof {
                assert((key@, val@) == spec_header_kv(t@)) by {
                    crate::text::lemma_find_props(t@, ':', 0);
                    match spec_find(t@, ':', 0) {
                        Some(ci) => {},
                        None => {
                            assert(val@ =~= Seq::<char>::empty());
                        },
                    }
                }
            }
            if key.len() > 0 {
                let key_s = string_of(&key);
                let val_s = string_of(&val);
                map.put(key_s, val_s);
            }
            i = i + 1;
        }
        if map.is_empty() {
            None
        } else {
            Some(Headers { map })
        }
    }

    /// The header names, in insertion order, written as first received.
    pub fn names(&self) -> (r: Vec<String>)
        ensures
            r.deep_view() == spec_keys(self@),
    {
        self.map.keys()
    }

    /// The values stored under `name`, in insertion order, if any; the
    /// name is matched without regard to ASCII letter case.
    pub fn values(&self, name: &str) -> (r: Option<Vec<String>>)
        ensures
            match spec_lookup(self@, true, name@) {
                Some(vs) => r is Some && r.unwrap().deep_view() == vs,
                None => r is None,
            },
    {
        proof {
            use_type_invariant(self);
        }
        self.map.values(name)
    }
}

} // verus!
