//! The multi-value map behind headers and query strings: an
//! insertion-ordered mapping from keys to one or many string values, with
//! key equality either exact or up to ASCII letter case.

use vstd::prelude::*;
use crate::text::{chars_eq, chars_of, seq_lower, vec_lower};

verus! {

/// One or many values stored under a single key.
#[derive(Debug)]
pub enum Value {
    Single(String),
    Multiple(Vec<String>),
}

impl View for Value {
    type V = Seq<Seq<char>>;

    open spec fn view(&self) -> Seq<Seq<char>> {
        match self {
            Value::Single(s) => seq![s@],
            Value::Multiple(vs) => vs.deep_view(),
        }
    }
}

impl Value {
    /// The stored values, in insertion order.
    pub fn iter(&self) -> (r: Vec<String>)
        ensures
            r.deep_view() == self@,
    {
        match self {
            Value::Single(s) => {
                let mut v: Vec<String> = Vec::new();
                v.push(s.clone());
                proof {
                    assert(v.deep_view() =~= self@);
                }
                v
            },
            Value::Multiple(vs) => {
                let v = vs.clone();
                proof {
                    assert(v.deep_view() =~= vs.deep_view());
                }
                v
            },
        }
    }
}

/// A key as it takes part in comparisons: itself, or lower-cased when
/// the map does not regard ASCII letter case.
pub open spec fn spec_norm(ci: bool, k: Seq<char>) -> Seq<char> {
    if ci {
        seq_lower(k)
    } else {
        k
    }
}

/// Index of the first entry of `m` at or after `pos` whose key equals
/// `k` under the map's key equality.
pub open spec fn spec_key_index_from(
    m: Seq<(Seq<char>, Seq<Seq<char>>)>,
    ci: bool,
    k: Seq<char>,
    pos: int,
) -> Option<int>
    decreases m.len() - pos,
{
    if pos < 0 || pos >= m.len() {
        None
    } else if spec_norm(ci, m[pos].0) == spec_norm(ci, k) {
        Some(pos)
    } else {
        spec_key_index_from(m, ci, k, pos + 1)
    }
}

/// Index of the first entry of `m` whose key equals `k` under the map's
/// key equality.
pub open spec fn spec_key_index(
    m: Seq<(Seq<char>, Seq<Seq<char>>)>,
    ci: bool,
    k: Seq<char>,
) -> Option<int> {
    spec_key_index_from(m, ci, k, 0)
}

/// The found index lies in `[pos, m.len())`, its key matches, and no
/// earlier key at or after `pos` does; `None` means no key matches.
pub proof fn lemma_key_index_props(
    m: Seq<(Seq<char>, Seq<Seq<char>>)>,
    ci: bool,
    k: Seq<char>,
    pos: int,
)
    requires
        0 <= pos <= m.len(),
    ensures
        match spec_key_index_from(m, ci, k, pos) {
            Some(i) => pos <= i < m.len() && spec_norm(ci, m[i].0) == spec_norm(ci, k) && forall|
                j: int,
            | pos <= j < i ==> spec_norm(ci, m[j].0) != spec_norm(ci, k),
            None => forall|j: int| pos <= j < m.len() ==> spec_norm(ci, m[j].0) != spec_norm(ci, k),
        },
    decreases m.len() - pos,
{
    if pos < m.len() && spec_norm(ci, m[pos].0) != spec_norm(ci, k) {
        lemma_key_index_props(m, ci, k, pos + 1);
    }
}

/// The map after `put`: the value is appended under the first entry
/// whose key matches, or a new entry is appended at the end.
pub open spec fn spec_put(
    m: Seq<(Seq<char>, Seq<Seq<char>>)>,
    ci: bool,
    k: Seq<char>,
    v: Seq<char>,
) -> Seq<(Seq<char>, Seq<Seq<char>>)> {
    match spec_key_index(m, ci, k) {
        None => m.push((k, seq![v])),
        Some(i) => m.update(i, (m[i].0, m[i].1.push(v))),
    }
}

/// The values stored under the first entry whose key matches, if any.
pub open spec fn spec_lookup(
    m: Seq<(Seq<char>, Seq<Seq<char>>)>,
    ci: bool,
    k: Seq<char>,
) -> Option<Seq<Seq<char>>> {
    match spec_key_index(m, ci, k) {
        None => None,
        Some(i) => Some(m[i].1),
    }
}

/// The keys of the entries, in order.
pub open spec fn spec_keys(m: Seq<(Seq<char>, Seq<Seq<char>>)>) -> Seq<Seq<char>> {
    m.map_values(|e: (Seq<char>, Seq<Seq<char>>)| e.0)
}

/// An insertion-ordered mapping from keys to one or many string values.
#[derive(Debug)]
pub struct ValueMap {
    entries: Vec<(String, Value)>,
    case_insensitive: bool,
}

impl View for ValueMap {
    type V = Seq<(Seq<char>, Seq<Seq<char>>)>;

    closed spec fn view(&self) -> Seq<(Seq<char>, Seq<Seq<char>>)> {
        self.entries@.map_values(|e: (String, Value)| (e.0@, e.1@))
    }
}

impl ValueMap {
    /// Whether keys are compared without regard to ASCII letter case.
    pub closed spec fn is_ci(&self) -> bool {
        self.case_insensitive
    }

    /// No two entries hold the same key under the map's key equality.
    pub open spec fn wf(&self) -> bool {
        forall|i: int, j: int|
            0 <= i < j < self@.len() ==> spec_norm(self.is_ci(), self@[i].0) != spec_norm(
                self.is_ci(),
                self@[j].0,
            )
    }

    /// An empty map whose keys are compared exactly.
    pub fn new() -> (r: ValueMap)
        ensures
            r@ == Seq::<(Seq<char>, Seq<Seq<char>>)>::empty(),
            !r.is_ci(),
            r.wf(),
    {
        let r = ValueMap { entries: Vec::new(), case_insensitive: false };
        proof {
            assert(r@ =~= Seq::<(Seq<char>, Seq<Seq<char>>)>::empty());
        }
        r
    }

    /// An empty map whose keys are compared without regard to ASCII
    /// letter case.
    pub fn new_case_insensitive() -> (r: ValueMap)
        ensures
            r@ == Seq::<(Seq<char>, Seq<Seq<char>>)>::empty(),
            r.is_ci(),
            r.wf(),
    {
        let r = ValueMap { entries: Vec::new(), case_insensitive: true };
        proof {
            assert(r@ =~= Seq::<(Seq<char>, Seq<Seq<char>>)>::empty());
        }
        r
    }

    /// Index of the first entry whose key equals `key` under the map's
    /// key equality.
    fn find_index(&self, key: &str) -> (r: Option<usize>)
        ensures
            match r {
                Some(i) => i < self@.len() && Some(i as int) == spec_key_index(
                    self@,
                    self.is_ci(),
                    key@,
                ),
                None => spec_key_index(self@, self.is_ci(), key@) is None,
            },
    {
        let key_chars = chars_of(key);
        let key_cmp = if self.case_insensitive {
            vec_lower(&key_chars)
        } else {
            key_chars
        };
        let mut i: usize = 0;
        while i < self.entries.len()
            invariant
                i <= self.entries.len(),
                self@.len() == self.entries.len(),
                key_cmp@ == spec_norm(self.is_ci(), key@),
                spec_key_index(self@, self.is_ci(), key@) == spec_key_index_from(
                    self@,
                    self.is_ci(),
                    key@,
                    i as int,
                ),
            decreases self.entries.len() - i,
        {
            let entry_chars = chars_of(self.entries[i].0.as_str());
            let entry_cmp = if self.case_insensitive {
                vec_lower(&entry_chars)
            } else {
                entry_chars
            };
            proof {
                assert(self@[i as int].0 == self.entries@[i as int].0@);
            }
            if chars_eq(&entry_cmp, &key_cmp) {
                return Some(i);
            }
            i = i + 1;
        }
        None
    }

    /// Inserts `val` under `key`: appended to the values of the first
    /// entry whose key matches, or as a new entry at the end.
    pub fn put(&mut self, key: String, val: String)
        ensures
            final(self)@ == spec_put(old(self)@, old(self).is_ci(), key@, val@),
            final(self).is_ci() == old(self).is_ci(),
            old(self).wf() ==> final(self).wf(),
    {
        proof {
            lemma_key_index_props(self@, self.is_ci(), key@, 0);
        }
        let ghost m0 = self@;
        let ghost ci = self.is_ci();
        match self.find_index(key.as_str()) {
            Some(i) => {
                let entry = self.entries.remove(i);
                let (k0, v0) = entry;
                let new_value = match v0 {
                    Value::Single(prev) => {
                        let mut vs: Vec<String> = Vec::new();
                        vs.push(prev);
                        vs.push(val);
                        Value::Multiple(vs)
                    },
                    Value::Multiple(mut vs) => {
                        vs.push(val);
                        Value::Multiple(vs)
                    },
                };
                proof {
                    assert(new_value@ =~= m0[i as int].1.push(val@));
                }
                self.entries.insert(i, (k0, new_value));
                proof {
                    assert(self@ =~= m0.update(i as int, (m0[i as int].0, m0[i as int].1.push(
                        val@,
                    ))));
                }
            },
            None => {
                self.entries.push((key, Value::Single(val)));
                proof {
                    assert(self@ =~= m0.push((key@, seq![val@])));
                }
            },
        }
        proof {
            if old(self).wf() {
                lemma_put_preserves_wf(m0, ci, key@, val@);
            }
        }
    }

    /// Whether the map holds no entry.
    pub fn is_empty(&self) -> (r: bool)
        ensures
            r == (self@.len() == 0),
    {
        self.entries.is_empty()
    }

    /// The keys, in insertion order, written as first received.
    pub fn keys(&self) -> (r: Vec<String>)
        ensures
            r.deep_view() == spec_keys(self@),
    {
        let mut r: Vec<String> = Vec::new();
        let mut i: usize = 0;
        while i < self.entries.len()
            invariant
                i <= self.entries.len(),
                self@.len() == self.entries.len(),
                r.deep_view() == spec_keys(self@.take(i as int)),
            decreases self.entries.len() - i,
        {
            let ghost rv = r@;
            proof {
                assert(rv.len() == r.deep_view().len());
                assert(r.deep_view().len() == spec_keys(self@.take(i as int)).len());
                assert(spec_keys(self@.take(i as int)).len() == self@.take(i as int).len());
                assert(self@.take(i as int).len() == i);
            }
            r.push(self.entries[i].0.clone());
            proof {
                assert(self@[i as int].0 == self.entries@[i as int].0@);
                assert(r@ == rv.push(r@[i as int]));
                assert forall|k: int| 0 <= k < r@.len() implies r.deep_view()[k] == spec_keys(
                    self@.take(i + 1 as int),
                )[k] by {
                    assert(r.deep_view()[k] == r@[k].deep_view());
                    assert(spec_keys(self@.take(i + 1 as int))[k] == self@.take(i + 1 as int)[k].0);
                    if k < i {
                        assert(r@[k] == rv[k]);
                        assert(rv[k].deep_view() == spec_keys(self@.take(i as int))[k]);
                        assert(spec_keys(self@.take(i as int))[k] == self@.take(i as int)[k].0);
                    }
                }
                assert(r.deep_view() =~= spec_keys(self@.take(i + 1 as int)));
            }
            i = i + 1;
        }
        proof {
            assert(self@.take(self@.len() as int) =~= self@);
        }
        r
    }

    /// The values stored under `key`, in insertion order, if any.
    pub fn values(&self, key: &str) -> (r: Option<Vec<String>>)
        ensures
            match spec_lookup(self@, self.is_ci(), key@) {
                Some(vs) => r is Some && r.unwrap().deep_view() == vs,
                None => r is None,
            },
    {
        match self.find_index(key) {
            Some(i) => Some(self.entries[i].1.iter()),
            None => None,
        }
    }
}

/// `put` never makes two entries share a key: the appended entry's key
/// matched no existing one, and an updated entry keeps its key.
proof fn lemma_put_preserves_wf(m: Seq<(Seq<char>, Seq<Seq<char>>)>, ci: bool, k: Seq<char>, v: Seq<char>)
    requires
        forall|i: int, j: int|
            0 <= i < j < m.len() ==> spec_norm(ci, m[i].0) != spec_norm(ci, m[j].0),
    ensures
        forall|i: int, j: int|
            0 <= i < j < spec_put(m, ci, k, v).len() ==> spec_norm(
                ci,
                spec_put(m, ci, k, v)[i].0,
            ) != spec_norm(ci, spec_put(m, ci, k, v)[j].0),
{
    lemma_key_index_props(m, ci, k, 0);
}

} // verus!
