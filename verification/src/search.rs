//! Finding, stripping and joining pieces of text.
use crate::text::{chars_of, slice_chars, views};
use vstd::prelude::*;

verus! {

// ---------------------------------------------------------------------------
// Substrings
// ---------------------------------------------------------------------------

/// `p` stands in `s` at position `i`.
pub open spec fn matches_at(s: Seq<char>, p: Seq<char>, i: int) -> bool {
    &&& 0 <= i
    &&& i + p.len() <= s.len()
    &&& s.subrange(i, i + p.len()) == p
}

/// `p` stands somewhere in `s`.
pub open spec fn has_text(s: Seq<char>, p: Seq<char>) -> bool {
    exists|i: int| matches_at(s, p, i)
}

/// The first position at or after `i` where `p` stands in `s`.
pub open spec fn find_from(s: Seq<char>, p: Seq<char>, i: int) -> Option<int>
    decreases s.len() + 1 - i,
{
    if i < 0 || i + p.len() > s.len() {
        None
    } else if s.subrange(i, i + p.len()) == p {
        Some(i)
    } else {
        find_from(s, p, i + 1)
    }
}

/// The first position where `p` stands in `s`.
pub open spec fn find(s: Seq<char>, p: Seq<char>) -> Option<int> {
    find_from(s, p, 0)
}

/// The last position at or before `i` where `p` stands in `s`.
pub open spec fn rfind_to(s: Seq<char>, p: Seq<char>, i: int) -> Option<int>
    decreases i + 1,
{
    if i < 0 {
        None
    } else if matches_at(s, p, i) {
        Some(i)
    } else {
        rfind_to(s, p, i - 1)
    }
}

/// The last position where `p` stands in `s`.
pub open spec fn rfind(s: Seq<char>, p: Seq<char>) -> Option<int> {
    rfind_to(s, p, s.len() as int)
}

/// What `find_from` yields is the least match at or after the start, and it
/// yields nothing only when there is none.
pub proof fn lemma_find_from(s: Seq<char>, p: Seq<char>, i: int)
    requires
        0 <= i,
    ensures
        match find_from(s, p, i) {
            Some(k) => i <= k && matches_at(s, p, k) && (forall|j: int|
                i <= j < k ==> !#[trigger] matches_at(s, p, j)),
            None => forall|j: int| i <= j ==> !#[trigger] matches_at(s, p, j),
        },
    decreases s.len() + 1 - i,
{
    if i + p.len() > s.len() {
    } else if s.subrange(i, i + p.len()) == p {
        assert(matches_at(s, p, i));
    } else {
        lemma_find_from(s, p, i + 1);
        assert(!matches_at(s, p, i));
    }
}

/// A text holds `p` exactly when the search finds it.
pub proof fn lemma_has_find(s: Seq<char>, p: Seq<char>)
    ensures
        has_text(s, p) == (find(s, p) is Some),
        match find(s, p) {
            Some(k) => matches_at(s, p, k),
            None => true,
        },
{
    lemma_find_from(s, p, 0);
}

/// Whether `p` stands in `v` at `i`.
pub fn match_at(v: &Vec<char>, p: &Vec<char>, i: usize) -> (r: bool)
    ensures
        r == matches_at(v@, p@, i as int),
{
    if p.len() > v.len() || i > v.len() - p.len() {
        return false;
    }
    let n: usize = v.len();
    let mut k: usize = 0;
    while k < p.len()
        invariant
            n == v@.len(),
            i + p@.len() <= n,
            k <= p@.len(),
            forall|j: int| 0 <= j < k ==> v@[i + j] == p@[j],
        decreases p@.len() - k,
    {
        if v[i + k] != p[k] {
            assert(v@.subrange(i as int, i + p@.len())[k as int] != p@[k as int]);
            return false;
        }
        k += 1;
    }
    assert(v@.subrange(i as int, i + p@.len()) =~= p@);
    true
}

/// The first position at or after `from` where `p` stands in `v`.
pub fn find_at(v: &Vec<char>, p: &str, from: usize) -> (r: Option<usize>)
    requires
        from <= v@.len(),
    ensures
        match r {
            Some(k) => find_from(v@, p@, from as int) == Some(k as int) && matches_at(
                v@,
                p@,
                k as int,
            ) && from <= k,
            None => find_from(v@, p@, from as int) is None,
        },
{
    let q = chars_of(p);
    if q.len() > v.len() {
        return None;
    }
    let last: usize = v.len() - q.len();
    let mut i: usize = from;
    while i <= last
        invariant
            from <= i <= v@.len() + 1,
            q@ == p@,
            last == v@.len() - q@.len(),
            v@.len() <= usize::MAX,
            find_from(v@, p@, from as int) == find_from(v@, p@, i as int),
        decreases v@.len() + 1 - i,
    {
        if match_at(v, &q, i) {
            return Some(i);
        }
        if i == last {
            assert(find_from(v@, p@, i + 1) is None);
            return None;
        }
        i += 1;
    }
    None
}

/// The first position where `p` stands in `v`.
pub fn find_in(v: &Vec<char>, p: &str) -> (r: Option<usize>)
    ensures
        match r {
            Some(k) => find(v@, p@) == Some(k as int) && matches_at(v@, p@, k as int),
            None => find(v@, p@) is None,
        },
{
    find_at(v, p, 0)
}

/// The last position where `p` stands in `v`.
pub fn rfind_in(v: &Vec<char>, p: &str) -> (r: Option<usize>)
    ensures
        match r {
            Some(k) => rfind(v@, p@) == Some(k as int) && matches_at(v@, p@, k as int),
            None => rfind(v@, p@) is None,
        },
{
    let q = chars_of(p);
    let mut i: usize = v.len();
    loop
        invariant
            i <= v@.len(),
            q@ == p@,
            rfind(v@, p@) == rfind_to(v@, p@, i as int),
        decreases i,
    {
        if match_at(v, &q, i) {
            return Some(i);
        }
        if i == 0 {
            assert(rfind_to(v@, p@, -1) is None);
            return None;
        }
        i -= 1;
    }
}

/// Whether `p` stands in `v`.
pub fn contains(v: &Vec<char>, p: &str) -> (r: bool)
    ensures
        r == has_text(v@, p@),
{
    proof {
        lemma_has_find(v@, p@);
    }
    match find_in(v, p) {
        Some(_) => true,
        None => false,
    }
}

/// Whether `p` stands in `s`.
pub fn contains_str(s: &str, p: &str) -> (r: bool)
    ensures
        r == has_text(s@, p@),
{
    contains(&chars_of(s), p)
}

/// `s` begins with `p`.
pub open spec fn starts_with(s: Seq<char>, p: Seq<char>) -> bool {
    matches_at(s, p, 0)
}

/// Whether `v` begins with `p`.
pub fn starts(v: &Vec<char>, p: &str) -> (r: bool)
    ensures
        r == starts_with(v@, p@),
{
    match_at(v, &chars_of(p), 0)
}

/// The first character of `s` is `c`.
pub open spec fn leads(s: Seq<char>, c: char) -> bool {
    s.len() > 0 && s[0] == c
}

/// Whether the first character of `v` is `c`.
pub fn leads_with(v: &Vec<char>, c: char) -> (r: bool)
    ensures
        r == leads(v@, c),
{
    v.len() > 0 && v[0] == c
}

/// Whether `c` occurs in `v`.
pub fn holds_char(v: &Vec<char>, c: char) -> (r: bool)
    ensures
        r == v@.contains(c),
{
    let mut i: usize = 0;
    while i < v.len()
        invariant
            i <= v@.len(),
            forall|j: int| 0 <= j < i ==> v@[j] != c,
        decreases v@.len() - i,
    {
        if v[i] == c {
            return true;
        }
        i += 1;
    }
    false
}

/// `s` without the leading run of `c`.
pub open spec fn strip_leading(s: Seq<char>, c: char) -> Seq<char>
    decreases s.len(),
{
    if leads(s, c) {
        strip_leading(s.drop_first(), c)
    } else {
        s
    }
}

/// Removes the leading run of `c`.
pub fn strip_leading_chars(v: &Vec<char>, c: char) -> (r: Vec<char>)
    ensures
        r@ == strip_leading(v@, c),
{
    let mut i: usize = 0;
    assert(v@.skip(0) =~= v@);
    while i < v.len() && v[i] == c
        invariant
            i <= v@.len(),
            strip_leading(v@, c) == strip_leading(v@.skip(i as int), c),
        decreases v@.len() - i,
    {
        assert(v@.skip(i as int).drop_first() =~= v@.skip(i + 1));
        i += 1;
    }
    slice_chars(v, i, v.len())
}

// ---------------------------------------------------------------------------
// Joining
// ---------------------------------------------------------------------------

/// The parts in order, with `sep` between neighbours.
pub open spec fn join(parts: Seq<Seq<char>>, sep: Seq<char>) -> Seq<char>
    decreases parts.len(),
{
    if parts.len() == 0 {
        Seq::empty()
    } else if parts.len() == 1 {
        parts[0]
    } else {
        join(parts.drop_last(), sep) + sep + parts.last()
    }
}

/// Joins the parts with `sep` between neighbours.
pub fn join_strings(parts: &Vec<String>, sep: &str) -> (r: String)
    ensures
        r@ == join(views(parts@), sep@),
{
    let mut r = String::new();
    let mut i: usize = 0;
    let ghost all = views(parts@);
    while i < parts.len()
        invariant
            i <= parts@.len(),
            all == views(parts@),
            r@ == join(all.take(i as int), sep@),
        decreases parts@.len() - i,
    {
        proof {
            assert(all.take(i + 1).drop_last() =~= all.take(i as int));
            assert(all.take(i + 1).last() == parts@[i as int]@);
        }
        if i > 0 {
            r.append(sep);
        }
        r.append(parts[i].as_str());
        proof {
            if i == 0 {
                assert(all.take(1)[0] == parts@[0]@);
                assert(r@ =~= parts@[0]@);
            }
        }
        i += 1;
    }
    assert(all.take(all.len() as int) =~= all);
    r
}

} // verus!
