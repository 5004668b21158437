//! Character-level utilities shared by the parser and the response writer:
//! conversions between `String` and `Vec<char>`, ASCII case folding,
//! trimming, splitting, and decimal formatting.

use vstd::prelude::*;

verus! {

/// Collects the characters of a string slice into a vector.
pub fn chars_of(s: &str) -> (v: Vec<char>)
    ensures
        v@ == s@,
{
    let mut v: Vec<char> = Vec::new();
    for c in it: s.chars()
        invariant
            it.seq() == s@,
            v@ == it.seq().take(it.index() as int),
    {
        v.push(c);
    }
    proof {
        assert(v@ =~= s@);
    }
    v
}

/// Relies on `alloc::string::String::push`: appends the given character
/// to the end of the string.
#[verifier::external_body]
fn push_char(s: &mut String, c: char)
    ensures
        final(s)@ == old(s)@.push(c),
{
    s.push(c)
}

/// Builds a `String` whose characters are exactly those of `v`.
pub fn string_of(v: &Vec<char>) -> (s: String)
    ensures
        s@ == v@,
{
    let mut s = String::new();
    let mut i: usize = 0;
    while i < v.len()
        invariant
            i <= v.len(),
            s@ == v@.take(i as int),
        decreases v.len() - i,
    {
        push_char(&mut s, v[i]);
        proof {
            assert(v@.take(i as int).push(v@[i as int]) =~= v@.take(i + 1 as int));
        }
        i = i + 1;
    }
    proof {
        assert(v@.take(v@.len() as int) =~= v@);
    }
    s
}

/// Copies the characters of `v` between `from` and `to` into a new vector.
pub fn subvec(v: &Vec<char>, from: usize, to: usize) -> (r: Vec<char>)
    requires
        from <= to <= v.len(),
    ensures
        r@ == v@.subrange(from as int, to as int),
{
    let mut r: Vec<char> = Vec::new();
    let mut i: usize = from;
    while i < to
        invariant
            from <= i <= to <= v.len(),
            r@ == v@.subrange(from as int, i as int),
        decreases to - i,
    {
        r.push(v[i]);
        proof {
            assert(v@.subrange(from as int, i as int).push(v@[i as int]) =~= v@.subrange(
                from as int,
                i + 1 as int,
            ));
        }
        i = i + 1;
    }
    r
}

/// The ASCII whitespace characters: space, tab, line feed, carriage
/// return and form feed.
pub open spec fn is_ascii_ws(c: char) -> bool {
    c == ' ' || c == '\t' || c == '\n' || c == '\r' || c == '\x0c'
}

/// Whether `c` is an ASCII whitespace character.
pub fn ascii_ws(c: char) -> (r: bool)
    ensures
        r == is_ascii_ws(c),
{
    c == ' ' || c == '\t' || c == '\n' || c == '\r' || c == '\x0c'
}

/// ASCII lower-casing of one character; other characters are unchanged.
pub open spec fn lower_char(c: char) -> char {
    if 'A' <= c && c <= 'Z' {
        ((c as u8) + 32) as char
    } else {
        c
    }
}

/// ASCII upper-casing of one character; other characters are unchanged.
pub open spec fn upper_char(c: char) -> char {
    if 'a' <= c && c <= 'z' {
        ((c as u8) - 32) as char
    } else {
        c
    }
}

/// ASCII lower-casing of a character sequence.
pub open spec fn seq_lower(s: Seq<char>) -> Seq<char> {
    s.map_values(|c: char| lower_char(c))
}

/// ASCII upper-casing of a character sequence.
pub open spec fn seq_upper(s: Seq<char>) -> Seq<char> {
    s.map_values(|c: char| upper_char(c))
}

/// ASCII lower-casing of one character.
pub fn to_lower(c: char) -> (r: char)
    ensures
        r == lower_char(c),
{
    if 'A' <= c && c <= 'Z' {
        ((c as u8) + 32) as char
    } else {
        c
    }
}

/// ASCII upper-casing of one character.
pub fn to_upper(c: char) -> (r: char)
    ensures
        r == upper_char(c),
{
    if 'a' <= c && c <= 'z' {
        ((c as u8) - 32) as char
    } else {
        c
    }
}

/// ASCII lower-casing of a character vector.
pub fn vec_lower(v: &Vec<char>) -> (r: Vec<char>)
    ensures
        r@ == seq_lower(v@),
{
    let mut r: Vec<char> = Vec::new();
    let mut i: usize = 0;
    while i < v.len()
        invariant
            i <= v.len(),
            r@ == seq_lower(v@.take(i as int)),
        decreases v.len() - i,
    {
        r.push(to_lower(v[i]));
        proof {
            assert(seq_lower(v@.take(i + 1 as int)) =~= seq_lower(v@.take(i as int)).push(
                lower_char(v@[i as int]),
            ));
        }
        i = i + 1;
    }
    proof {
        assert(v@.take(v@.len() as int) =~= v@);
    }
    r
}

/// ASCII upper-casing of a character vector.
pub fn vec_upper(v: &Vec<char>) -> (r: Vec<char>)
    ensures
        r@ == seq_upper(v@),
{
    let mut r: Vec<char> = Vec::new();
    let mut i: usize = 0;
    while i < v.len()
        invariant
            i <= v.len(),
            r@ == seq_upper(v@.take(i as int)),
        decreases v.len() - i,
    {
        r.push(to_upper(v[i]));
        proof {
            assert(seq_upper(v@.take(i + 1 as int)) =~= seq_upper(v@.take(i as int)).push(
                upper_char(v@[i as int]),
            ));
        }
        i = i + 1;
    }
    proof {
        assert(v@.take(v@.len() as int) =~= v@);
    }
    r
}

/// The sequence without its leading ASCII whitespace.
pub open spec fn spec_trim_start(s: Seq<char>) -> Seq<char>
    decreases s.len(),
{
    if s.len() > 0 && is_ascii_ws(s[0]) {
        spec_trim_start(s.drop_first())
    } else {
        s
    }
}

/// The sequence without its trailing ASCII whitespace.
pub open spec fn spec_trim_end(s: Seq<char>) -> Seq<char>
    decreases s.len(),
{
    if s.len() > 0 && is_ascii_ws(s.last()) {
        spec_trim_end(s.drop_last())
    } else {
        s
    }
}

/// The sequence without leading and trailing ASCII whitespace.
pub open spec fn spec_trim(s: Seq<char>) -> Seq<char> {
    spec_trim_end(spec_trim_start(s))
}

proof fn lemma_trim_start_skip(s: Seq<char>, i: int)
    requires
        0 <= i <= s.len(),
        forall|k: int| 0 <= k < i ==> is_ascii_ws(s[k]),
    ensures
        spec_trim_start(s) == spec_trim_start(s.skip(i)),
    decreases i,
{
    if i > 0 {
        assert(s.skip(0) =~= s);
        assert(s.drop_first() =~= s.skip(1));
        lemma_trim_start_skip(s.skip(1), i - 1);
        assert(s.skip(1).skip(i - 1) =~= s.skip(i));
    } else {
        assert(s.skip(0) =~= s);
    }
}

proof fn lemma_trim_end_take(s: Seq<char>, i: int)
    requires
        0 <= i <= s.len(),
        forall|k: int| i <= k < s.len() ==> is_ascii_ws(s[k]),
    ensures
        spec_trim_end(s) == spec_trim_end(s.take(i)),
    decreases s.len() - i,
{
    if i < s.len() {
        assert(s.drop_last() =~= s.take(s.len() - 1));
        lemma_trim_end_take(s.take(s.len() - 1), i);
        assert(s.take(s.len() - 1).take(i) =~= s.take(i));
    } else {
        assert(s.take(i) =~= s);
    }
}

/// Removes leading and trailing ASCII whitespace from `v`.
pub fn trim(v: &Vec<char>) -> (r: Vec<char>)
    ensures
        r@ == spec_trim(v@),
{
    let mut lo: usize = 0;
    while lo < v.len() && ascii_ws(v[lo])
        invariant
            lo <= v.len(),
            forall|k: int| 0 <= k < lo ==> is_ascii_ws(v@[k]),
        decreases v.len() - lo,
    {
        lo = lo + 1;
    }
    proof {
        lemma_trim_start_skip(v@, lo as int);
        assert(spec_trim_start(v@) == v@.skip(lo as int));
    }
    let mut hi: usize = v.len();
    while hi > lo && ascii_ws(v[hi - 1])
        invariant
            lo <= hi <= v.len(),
            forall|k: int| hi <= k < v.len() ==> is_ascii_ws(v@[k]),
        decreases hi,
    {
        hi = hi - 1;
    }
    proof {
        let t = v@.skip(lo as int);
        assert(forall|k: int| hi - lo <= k < t.len() ==> is_ascii_ws(t[k]));
        lemma_trim_end_take(t, hi - lo);
        assert(t.take(hi - lo) =~= v@.subrange(lo as int, hi as int));
        if hi > lo {
            assert(!is_ascii_ws(t.take(hi - lo).last()));
        }
        assert(spec_trim_end(t.take(hi - lo)) == t.take(hi - lo));
    }
    subvec(v, lo, hi)
}

/// Index of the first occurrence of `c` in `s` at or after `pos`.
pub open spec fn spec_find(s: Seq<char>, c: char, pos: int) -> Option<int>
    decreases s.len() - pos,
{
    if pos < 0 || pos >= s.len() {
        None
    } else if s[pos] == c {
        Some(pos)
    } else {
        spec_find(s, c, pos + 1)
    }
}

/// The found index lies in `[pos, s.len())`, holds `c`, and nothing
/// before it does; `None` means `c` does not occur at or after `pos`.
pub proof fn lemma_find_props(s: Seq<char>, c: char, pos: int)
    requires
        0 <= pos <= s.len(),
    ensures
        match spec_find(s, c, pos) {
            Some(i) => pos <= i < s.len() && s[i] == c && forall|k: int|
                pos <= k < i ==> s[k] != c,
            None => forall|k: int| pos <= k < s.len() ==> s[k] != c,
        },
    decreases s.len() - pos,
{
    if pos < s.len() && s[pos] != c {
        lemma_find_props(s, c, pos + 1);
    }
}

/// Finds the first occurrence of `c` in `v` at or after `from`.
pub fn find_char(v: &Vec<char>, c: char, from: usize) -> (r: Option<usize>)
    requires
        from <= v.len(),
    ensures
        match r {
            Some(i) => from <= i < v.len() && Some(i as int) == spec_find(v@, c, from as int),
            None => spec_find(v@, c, from as int) is None,
        },
{
    let mut i: usize = from;
    while i < v.len()
        invariant
            from <= i <= v.len(),
            spec_find(v@, c, from as int) == spec_find(v@, c, i as int),
        decreases v.len() - i,
    {
        if v[i] == c {
            return Some(i);
        }
        i = i + 1;
    }
    None
}

/// The pieces of `s` from `pos` on, split at every occurrence of `c`.
pub open spec fn spec_split_from(s: Seq<char>, c: char, pos: int) -> Seq<Seq<char>>
    decreases s.len() - pos,
    when 0 <= pos <= s.len()
    via spec_split_from_decreases
{
    match spec_find(s, c, pos) {
        None => seq![s.subrange(pos, s.len() as int)],
        Some(i) => seq![s.subrange(pos, i)] + spec_split_from(s, c, i + 1),
    }
}

#[via_fn]
proof fn spec_split_from_decreases(s: Seq<char>, c: char, pos: int) {
    lemma_find_props(s, c, pos);
}

/// The pieces of `s`, split at every occurrence of `c`. Splitting the
/// empty sequence gives one empty piece, as `str::split` does.
pub open spec fn spec_split(s: Seq<char>, c: char) -> Seq<Seq<char>> {
    spec_split_from(s, c, 0)
}

/// Splits `v` at every occurrence of `c`.
pub fn split_all(v: &Vec<char>, c: char) -> (r: Vec<Vec<char>>)
    ensures
        r.deep_view() == spec_split(v@, c),
{
    let mut r: Vec<Vec<char>> = Vec::new();
    let mut pos: usize = 0;
    loop
        invariant_except_break
            spec_split(v@, c) == r.deep_view() + spec_split_from(v@, c, pos as int),
        invariant
            pos <= v.len(),
        ensures
            r.deep_view() == spec_split(v@, c),
        decreases v.len() - pos,
    {
        proof {
            lemma_find_props(v@, c, pos as int);
        }
        let ghost pre = r.deep_view();
        match find_char(v, c, pos) {
            Some(i) => {
                let piece = subvec(v, pos, i);
                r.push(piece);
                proof {
                    assert(r.deep_view() =~~= pre.push(v@.subrange(pos as int, i as int)));
                    assert(spec_split_from(v@, c, pos as int) == seq![
                        v@.subrange(pos as int, i as int),
                    ] + spec_split_from(v@, c, i + 1));
                    assert(pre.push(v@.subrange(pos as int, i as int)) + spec_split_from(
                        v@,
                        c,
                        i + 1,
                    ) =~= pre + spec_split_from(v@, c, pos as int));
                }
                pos = i + 1;
            },
            None => {
                let piece = subvec(v, pos, v.len());
                r.push(piece);
                proof {
                    assert(r.deep_view() =~~= pre.push(v@.subrange(pos as int, v@.len() as int)));
                    assert(spec_split_from(v@, c, pos as int) == seq![
                        v@.subrange(pos as int, v@.len() as int),
                    ]);
                    assert(pre.push(v@.subrange(pos as int, v@.len() as int)) =~= pre
                        + spec_split_from(v@, c, pos as int));
                }
                break ;
            },
        }
    }
    r
}

/// Splits `v` at the first occurrence of `c`, if there is one.
pub fn split_once(v: &Vec<char>, c: char) -> (r: (Vec<char>, Option<Vec<char>>))
    ensures
        match spec_find(v@, c, 0) {
            Some(i) => r.0@ == v@.subrange(0, i) && r.1 is Some && r.1.unwrap()@ == v@.subrange(
                i + 1,
                v@.len() as int,
            ),
            None => r.0@ == v@ && r.1 is None,
        },
{
    proof {
        lemma_find_props(v@, c, 0);
    }
    match find_char(v, c, 0) {
        Some(i) => {
            let head = subvec(v, 0, i);
            let tail = subvec(v, i + 1, v.len());
            (head, Some(tail))
        },
        None => {
            let head = subvec(v, 0, v.len());
            proof {
                assert(v@.subrange(0, v@.len() as int) =~= v@);
            }
            (head, None)
        },
    }
}

/// Whether the characters of `v` are exactly those of `s`.
pub fn chars_eq_str(v: &Vec<char>, s: &str) -> (r: bool)
    ensures
        r == (v@ == s@),
{
    let n = s.unicode_len();
    if v.len() != n {
        return false;
    }
    let mut i: usize = 0;
    while i < n
        invariant
            i <= n,
            n == s@.len(),
            v@.len() == n,
            forall|k: int| 0 <= k < i ==> v@[k] == s@[k],
        decreases n - i,
    {
        if v[i] != s.get_char(i) {
            return false;
        }
        i = i + 1;
    }
    proof {
        assert(v@ =~= s@);
    }
    true
}

/// Whether two character vectors hold the same characters.
pub fn chars_eq(a: &Vec<char>, b: &Vec<char>) -> (r: bool)
    ensures
        r == (a@ == b@),
{
    if a.len() != b.len() {
        return false;
    }
    let mut i: usize = 0;
    while i < a.len()
        invariant
            i <= a.len(),
            a@.len() == b@.len(),
            forall|k: int| 0 <= k < i ==> a@[k] == b@[k],
        decreases a.len() - i,
    {
        if a[i] != b[i] {
            return false;
        }
        i = i + 1;
    }
    proof {
        assert(a@ =~= b@);
    }
    true
}

/// Index of the last occurrence of `c` in `s` before `pos`.
pub open spec fn spec_rfind_before(s: Seq<char>, c: char, pos: int) -> Option<int>
    decreases pos,
{
    if pos <= 0 || pos > s.len() {
        None
    } else if s[pos - 1] == c {
        Some(pos - 1)
    } else {
        spec_rfind_before(s, c, pos - 1)
    }
}

/// The found index lies in `[0, pos)`, holds `c`, and nothing after it
/// before `pos` does; `None` means `c` does not occur before `pos`.
pub proof fn lemma_rfind_props(s: Seq<char>, c: char, pos: int)
    requires
        0 <= pos <= s.len(),
    ensures
        match spec_rfind_before(s, c, pos) {
            Some(i) => 0 <= i < pos && s[i] == c && forall|k: int| i < k < pos ==> s[k] != c,
            None => forall|k: int| 0 <= k < pos ==> s[k] != c,
        },
    decreases pos,
{
    if pos > 0 && s[pos - 1] != c {
        lemma_rfind_props(s, c, pos - 1);
    }
}

/// Finds the last occurrence of `c` in `v`.
pub fn rfind_char(v: &Vec<char>, c: char) -> (r: Option<usize>)
    ensures
        match r {
            Some(i) => i < v.len() && Some(i as int) == spec_rfind_before(v@, c, v@.len() as int),
            None => spec_rfind_before(v@, c, v@.len() as int) is None,
        },
{
    let mut i: usize = v.len();
    while i > 0
        invariant
            i <= v.len(),
            spec_rfind_before(v@, c, v@.len() as int) == spec_rfind_before(v@, c, i as int),
        decreases i,
    {
        if v[i - 1] == c {
            return Some(i - 1);
        }
        i = i - 1;
    }
    None
}

/// The first index at or after `pos` that does not hold ASCII
/// whitespace, or the length.
pub open spec fn spec_skip_ws(s: Seq<char>, pos: int) -> int
    decreases s.len() - pos,
{
    if pos < 0 || pos >= s.len() {
        pos
    } else if is_ascii_ws(s[pos]) {
        spec_skip_ws(s, pos + 1)
    } else {
        pos
    }
}

/// The first index at or after `pos` that holds ASCII whitespace, or
/// the length.
pub open spec fn spec_token_end(s: Seq<char>, pos: int) -> int
    decreases s.len() - pos,
{
    if pos < 0 || pos >= s.len() {
        pos
    } else if is_ascii_ws(s[pos]) {
        pos
    } else {
        spec_token_end(s, pos + 1)
    }
}

proof fn lemma_skip_ws_bounds(s: Seq<char>, pos: int)
    requires
        0 <= pos <= s.len(),
    ensures
        pos <= spec_skip_ws(s, pos) <= s.len(),
        pos <= spec_token_end(s, pos) <= s.len(),
        spec_skip_ws(s, pos) < s.len() ==> !is_ascii_ws(s[spec_skip_ws(s, pos)]),
    decreases s.len() - pos,
{
    if pos < s.len() {
        lemma_skip_ws_bounds(s, pos + 1);
    }
}

/// The whitespace-separated tokens of `s` at or after `pos`, in order.
pub open spec fn spec_ws_tokens_from(s: Seq<char>, pos: int) -> Seq<Seq<char>>
    decreases s.len() - pos,
    when 0 <= pos <= s.len()
    via spec_ws_tokens_from_decreases
{
    let b = spec_skip_ws(s, pos);
    if b >= s.len() {
        Seq::empty()
    } else {
        seq![s.subrange(b, spec_token_end(s, b))] + spec_ws_tokens_from(s, spec_token_end(s, b))
    }
}

#[via_fn]
proof fn spec_ws_tokens_from_decreases(s: Seq<char>, pos: int) {
    lemma_skip_ws_bounds(s, pos);
    let b = spec_skip_ws(s, pos);
    if b < s.len() {
        lemma_skip_ws_bounds(s, b + 1);
        assert(spec_token_end(s, b) == spec_token_end(s, b + 1));
        assert(spec_token_end(s, b) > b);
    }
}

/// The whitespace-separated tokens of `s`, in order.
pub open spec fn spec_ws_tokens(s: Seq<char>) -> Seq<Seq<char>> {
    spec_ws_tokens_from(s, 0)
}

/// Splits `v` into its whitespace-separated tokens.
pub fn ws_tokens(v: &Vec<char>) -> (r: Vec<Vec<char>>)
    ensures
        r.deep_view() == spec_ws_tokens(v@),
{
    let mut r: Vec<Vec<char>> = Vec::new();
    let mut pos: usize = 0;
    loop
        invariant_except_break
            spec_ws_tokens(v@) == r.deep_view() + spec_ws_tokens_from(v@, pos as int),
        invariant
            pos <= v.len(),
        ensures
            r.deep_view() == spec_ws_tokens(v@),
        decreases v.len() - pos,
    {
        let ghost pos0 = pos;
        while pos < v.len() && ascii_ws(v[pos])
            invariant
                pos0 <= pos <= v.len(),
                spec_ws_tokens(v@) == r.deep_view() + spec_ws_tokens_from(v@, pos as int),
            decreases v.len() - pos,
        {
            proof {
                assert(spec_skip_ws(v@, pos as int) == spec_skip_ws(v@, pos + 1 as int));
                assert(spec_ws_tokens_from(v@, pos as int) == spec_ws_tokens_from(
                    v@,
                    pos + 1 as int,
                ));
            }
            pos = pos + 1;
        }
        if pos >= v.len() {
            proof {
                assert(spec_ws_tokens_from(v@, pos as int) =~= Seq::<Seq<char>>::empty());
                assert(r.deep_view() =~= spec_ws_tokens(v@));
            }
            break ;
        }
        let start = pos;
        let mut end: usize = pos;
        while end < v.len() && !ascii_ws(v[end])
            invariant
                start <= end <= v.len(),
                spec_token_end(v@, start as int) == spec_token_end(v@, end as int),
            decreases v.len() - end,
        {
            proof {
                assert(spec_token_end(v@, end as int) == spec_token_end(v@, end + 1 as int));
            }
            end = end + 1;
        }
        proof {
            assert(spec_token_end(v@, end as int) == end);
            assert(spec_skip_ws(v@, start as int) == start);
            lemma_skip_ws_bounds(v@, start + 1);
            assert(spec_token_end(v@, start as int) == spec_token_end(v@, start + 1 as int));
            assert(end > start >= pos0);
        }
        let piece = subvec(v, start, end);
        let ghost pre = r.deep_view();
        r.push(piece);
        proof {
            assert(r.deep_view() =~~= pre.push(v@.subrange(start as int, end as int)));
            assert(spec_ws_tokens_from(v@, start as int) == seq![
                v@.subrange(start as int, end as int),
            ] + spec_ws_tokens_from(v@, end as int));
            assert(pre.push(v@.subrange(start as int, end as int)) + spec_ws_tokens_from(
                v@,
                end as int,
            ) =~= pre + spec_ws_tokens_from(v@, start as int));
        }
        pos = end;
    }
    r
}

/// The line without one trailing carriage return, if it ends in one.
pub open spec fn spec_strip_cr(s: Seq<char>) -> Seq<char> {
    if s.len() > 0 && s.last() == '\r' {
        s.drop_last()
    } else {
        s
    }
}

/// The lines of `s`: pieces split at `\n`, each without one trailing
/// carriage return; a final piece after the last `\n` keeps a trailing
/// carriage return, and an empty final piece is dropped, as with
/// `str::lines`.
pub open spec fn spec_lines(s: Seq<char>) -> Seq<Seq<char>> {
    let p = spec_split(s, '\n');
    let body = Seq::new((p.len() - 1) as nat, |j: int| spec_strip_cr(p[j]));
    if p.last().len() == 0 {
        body
    } else {
        body.push(p.last())
    }
}

/// Removes one trailing carriage return from `v`, if it ends in one.
pub fn strip_cr(v: &Vec<char>) -> (r: Vec<char>)
    ensures
        r@ == spec_strip_cr(v@),
{
    if v.len() > 0 && v[v.len() - 1] == '\r' {
        let r = subvec(v, 0, v.len() - 1);
        proof {
            assert(v@.subrange(0, v@.len() - 1) =~= v@.drop_last());
        }
        r
    } else {
        let r = subvec(v, 0, v.len());
        proof {
            assert(v@.subrange(0, v@.len() as int) =~= v@);
        }
        r
    }
}

/// Splits `v` into its lines.
pub fn lines_of(v: &Vec<char>) -> (r: Vec<Vec<char>>)
    ensures
        r.deep_view() == spec_lines(v@),
{
    let pieces = split_all(v, '\n');
    let ghost ps = pieces.deep_view();
    let mut r: Vec<Vec<char>> = Vec::new();
    let n = pieces.len();
    proof {
        assert(ps.len() > 0);
    }
    let mut j: usize = 0;
    while j < n - 1
        invariant
            n == ps.len(),
            ps == pieces.deep_view(),
            ps == spec_split(v@, '\n'),
            n >= 1,
            j <= n - 1,
            r.deep_view() =~= Seq::new(j as nat, |k: int| spec_strip_cr(ps[k])),
        decreases n - 1 - j,
    {
        let line = strip_cr(&pieces[j]);
        let ghost pre = r.deep_view();
        r.push(line);
        proof {
            assert(ps[j as int] == pieces@[j as int]@);
            assert(r.deep_view() =~~= pre.push(spec_strip_cr(ps[j as int])));
            assert(pre.push(spec_strip_cr(ps[j as int])) =~= Seq::new(
                (j + 1) as nat,
                |k: int| spec_strip_cr(ps[k]),
            ));
        }
        j = j + 1;
    }
    let last = &pieces[n - 1];
    proof {
        assert(ps[n - 1] == pieces@[n - 1]@);
        assert(ps.last() == ps[n - 1]);
    }
    if last.len() > 0 {
        let ghost pre = r.deep_view();
        let piece = subvec(last, 0, last.len());
        proof {
            assert(piece@ =~= ps.last());
        }
        r.push(piece);
        proof {
            assert(r.deep_view() =~~= pre.push(ps.last()));
        }
    }
    r
}

/// Whether every character is an ASCII decimal digit, and there is at
/// least one.
pub open spec fn is_digit_seq(s: Seq<char>) -> bool {
    s.len() > 0 && forall|k: int| 0 <= k < s.len() ==> '0' <= #[trigger] s[k] && s[k] <= '9'
}

/// The digit string without its leading zeros.
pub open spec fn spec_strip_zeros(s: Seq<char>) -> Seq<char>
    decreases s.len(),
{
    if s.len() > 0 && s[0] == '0' {
        spec_strip_zeros(s.drop_first())
    } else {
        s
    }
}

proof fn lemma_strip_zeros_skip(s: Seq<char>, i: int)
    requires
        0 <= i <= s.len(),
        forall|k: int| 0 <= k < i ==> s[k] == '0',
    ensures
        spec_strip_zeros(s) == spec_strip_zeros(s.skip(i)),
    decreases i,
{
    if i > 0 {
        assert(s.skip(0) =~= s);
        assert(s.drop_first() =~= s.skip(1));
        lemma_strip_zeros_skip(s.skip(1), i - 1);
        assert(s.skip(1).skip(i - 1) =~= s.skip(i));
    } else {
        assert(s.skip(0) =~= s);
    }
}

/// Whether the digits of `v` between `from` and `to` name the value
/// one: all digits, and `1` after stripping leading zeros.
pub fn digits_are_one(v: &Vec<char>, from: usize, to: usize) -> (r: bool)
    requires
        from <= to <= v.len(),
    ensures
        r == (is_digit_seq(v@.subrange(from as int, to as int)) && spec_strip_zeros(
            v@.subrange(from as int, to as int),
        ) == seq!['1']),
{
    let (all_digits, lead) = scan_digits(v, from, to);
    if !all_digits {
        return false;
    }
    let ghost s = v@.subrange(from as int, to as int);
    proof {
        lemma_strip_zeros_skip(s, lead - from);
        assert(spec_strip_zeros(s) == s.skip(lead - from));
        assert(s.skip(lead - from) =~= v@.subrange(lead as int, to as int));
    }
    if to - lead == 1 && v[lead] == '1' {
        proof {
            assert(v@.subrange(lead as int, to as int) =~= seq!['1']);
        }
        true
    } else {
        proof {
            if v@.subrange(lead as int, to as int) =~= seq!['1'] {
                assert(to - lead == 1 && v@[lead as int] == '1');
            }
        }
        false
    }
}

/// Whether the digits of `v` between `from` and `to` name the value
/// zero or one: all digits, and empty or `1` after stripping leading
/// zeros.
pub fn digits_below_two(v: &Vec<char>, from: usize, to: usize) -> (r: bool)
    requires
        from <= to <= v.len(),
    ensures
        r == (is_digit_seq(v@.subrange(from as int, to as int)) && (spec_strip_zeros(
            v@.subrange(from as int, to as int),
        ) == Seq::<char>::empty() || spec_strip_zeros(v@.subrange(from as int, to as int))
            == seq!['1'])),
{
    let (all_digits, lead) = scan_digits(v, from, to);
    if !all_digits {
        return false;
    }
    let ghost s = v@.subrange(from as int, to as int);
    proof {
        lemma_strip_zeros_skip(s, lead - from);
        assert(spec_strip_zeros(s) == s.skip(lead - from));
        assert(s.skip(lead - from) =~= v@.subrange(lead as int, to as int));
    }
    if lead == to {
        proof {
            assert(v@.subrange(lead as int, to as int) =~= Seq::<char>::empty());
        }
        true
    } else if to - lead == 1 && v[lead] == '1' {
        proof {
            assert(v@.subrange(lead as int, to as int) =~= seq!['1']);
        }
        true
    } else {
        proof {
            let t = v@.subrange(lead as int, to as int);
            if t =~= Seq::<char>::empty() {
                assert(to == lead);
            }
            if t =~= seq!['1'] {
                assert(to - lead == 1 && v@[lead as int] == '1');
            }
        }
        false
    }
}

/// Scans `v` between `from` and `to`: whether all characters are ASCII
/// digits and there is at least one, and the end of the leading zeros.
fn scan_digits(v: &Vec<char>, from: usize, to: usize) -> (r: (bool, usize))
    requires
        from <= to <= v.len(),
    ensures
        r.0 == is_digit_seq(v@.subrange(from as int, to as int)),
        r.0 ==> from <= r.1 <= to && (forall|k: int| from <= k < r.1 ==> v@[k] == '0') && (r.1 < to
            ==> v@[r.1 as int] != '0'),
{
    if from == to {
        return (false, from);
    }
    let mut i: usize = from;
    while i < to
        invariant
            from <= i <= to <= v.len(),
            forall|k: int| from <= k < i ==> '0' <= #[trigger] v@[k] && v@[k] <= '9',
        decreases to - i,
    {
        if v[i] < '0' || v[i] > '9' {
            proof {
                assert(v@.subrange(from as int, to as int)[i - from] == v@[i as int]);
            }
            return (false, from);
        }
        i = i + 1;
    }
    let mut lead: usize = from;
    while lead < to && v[lead] == '0'
        invariant
            from <= lead <= to <= v.len(),
            forall|k: int| from <= k < lead ==> #[trigger] v@[k] == '0',
        decreases to - lead,
    {
        lead = lead + 1;
    }
    proof {
        assert(forall|k: int|
            0 <= k < to - from ==> v@.subrange(from as int, to as int)[k] == v@[k + from]);
    }
    (true, lead)
}

/// The character for a single decimal digit.
pub open spec fn digit_char(d: nat) -> char {
    ((d + 48) as u8) as char
}

/// The decimal representation of `n`, most significant digit first.
pub open spec fn spec_dec(n: nat) -> Seq<char>
    decreases n,
{
    if n < 10 {
        seq![digit_char(n)]
    } else {
        spec_dec(n / 10).push(digit_char(n % 10))
    }
}

/// Reverses a character vector.
fn reverse_chars(v: &Vec<char>) -> (r: Vec<char>)
    ensures
        r@ == v@.reverse(),
{
    let mut r: Vec<char> = Vec::new();
    let mut i: usize = v.len();
    while i > 0
        invariant
            i <= v.len(),
            r@.len() == v@.len() - i,
            forall|k: int| 0 <= k < r@.len() ==> r@[k] == v@[v@.len() - 1 - k],
        decreases i,
    {
        i = i - 1;
        r.push(v[i]);
    }
    proof {
        assert(r@ =~= v@.reverse());
    }
    r
}

/// Writes `n` in decimal.
pub fn dec_u64(n: u64) -> (r: Vec<char>)
    ensures
        r@ == spec_dec(n as nat),
{
    let mut digits: Vec<char> = Vec::new();
    let mut m: u64 = n;
    loop
        invariant_except_break
            spec_dec(n as nat) == spec_dec(m as nat) + digits@.reverse(),
        ensures
            spec_dec(n as nat) == digits@.reverse(),
        decreases m,
    {
        let ghost old_digits = digits@;
        let d = ((m % 10) as u8 + 48) as char;
        proof {
            assert(d == digit_char((m % 10) as nat));
        }
        digits.push(d);
        let m2 = m / 10;
        proof {
            assert(digits@.reverse() =~= seq![d] + old_digits.reverse());
            if m >= 10 {
                assert(spec_dec(m as nat) == spec_dec((m as nat) / 10).push(digit_char(
                    (m as nat) % 10,
                )));
                assert(spec_dec((m as nat) / 10).push(d) + old_digits.reverse() =~= spec_dec(
                    m2 as nat,
                ) + digits@.reverse());
            } else {
                assert(spec_dec(m as nat) =~= seq![d]);
                assert(seq![d] + old_digits.reverse() =~= digits@.reverse());
            }
        }
        if m2 == 0 {
            break ;
        }
        m = m2;
    }
    reverse_chars(&digits)
}

/// Writes `n` in decimal as a `String`.
pub fn dec_u64_string(n: u64) -> (r: String)
    ensures
        r@ == spec_dec(n as nat),
{
    let digits = dec_u64(n);
    string_of(&digits)
}

} // verus!
