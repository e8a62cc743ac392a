//! The order of texts, and sorted lists of them.
use crate::text::{chars_of, views};
use vstd::prelude::*;

verus! {

/// `a` comes before `b`: lexicographic order by code point.
pub open spec fn lex_less(a: Seq<char>, b: Seq<char>) -> bool
    decreases a.len(),
{
    if b.len() == 0 {
        false
    } else if a.len() == 0 {
        true
    } else if a[0] != b[0] {
        a[0] < b[0]
    } else {
        lex_less(a.drop_first(), b.drop_first())
    }
}

/// No text comes before itself.
pub proof fn lemma_lex_irreflexive(a: Seq<char>)
    ensures
        !lex_less(a, a),
    decreases a.len(),
{
    if a.len() > 0 {
        lemma_lex_irreflexive(a.drop_first());
    }
}

/// The order is transitive.
pub proof fn lemma_lex_transitive(a: Seq<char>, b: Seq<char>, c: Seq<char>)
    requires
        lex_less(a, b),
        lex_less(b, c),
    ensures
        lex_less(a, c),
    decreases a.len(),
{
    if a.len() > 0 && a[0] == b[0] && b[0] == c[0] {
        lemma_lex_transitive(a.drop_first(), b.drop_first(), c.drop_first());
    }
}

/// Of two different texts one comes first.
pub proof fn lemma_lex_total(a: Seq<char>, b: Seq<char>)
    ensures
        a == b || lex_less(a, b) || lex_less(b, a),
    decreases a.len(),
{
    if a.len() > 0 && b.len() > 0 && a[0] == b[0] {
        lemma_lex_total(a.drop_first(), b.drop_first());
        if a.drop_first() == b.drop_first() {
            assert(a =~= seq![a[0]] + a.drop_first());
            assert(b =~= seq![b[0]] + b.drop_first());
        }
    } else if a.len() == 0 && b.len() == 0 {
        assert(a =~= b);
    }
}

/// Whether `a` comes before `b`.
pub fn less(a: &str, b: &str) -> (r: bool)
    ensures
        r == lex_less(a@, b@),
{
    let x = chars_of(a);
    let y = chars_of(b);
    let mut i: usize = 0;
    assert(x@.skip(0) =~= x@);
    assert(y@.skip(0) =~= y@);
    while i < x.len() && i < y.len() && x[i] == y[i]
        invariant
            x@ == a@,
            y@ == b@,
            i <= x@.len(),
            i <= y@.len(),
            lex_less(a@, b@) == lex_less(x@.skip(i as int), y@.skip(i as int)),
        decreases x@.len() - i,
    {
        assert(x@.skip(i as int).drop_first() =~= x@.skip(i + 1));
        assert(y@.skip(i as int).drop_first() =~= y@.skip(i + 1));
        i += 1;
    }
    if i >= y.len() {
        false
    } else if i >= x.len() {
        true
    } else {
        x[i] < y[i]
    }
}

/// Every text comes before those after it, so none occurs twice.
pub open spec fn strictly_sorted(s: Seq<Seq<char>>) -> bool {
    forall|i: int, j: int| 0 <= i < j < s.len() ==> lex_less(#[trigger] s[i], #[trigger] s[j])
}

/// Two strictly sorted lists with the same texts are the same list.
pub proof fn sorted_lists_are_determined(a: Seq<Seq<char>>, b: Seq<Seq<char>>)
    requires
        strictly_sorted(a),
        strictly_sorted(b),
        forall|x: Seq<char>| a.contains(x) <==> b.contains(x),
    ensures
        a == b,
    decreases a.len(),
{
    if a.len() == 0 {
        if b.len() > 0 {
            assert(b.contains(b[0]));
            assert(a.contains(b[0]));
        }
        assert(a =~= b);
    } else {
        assert(a.contains(a.last()));
        assert(b.contains(a.last()));
        let k = choose|k: int| 0 <= k < b.len() && b[k] == a.last();
        assert(b.contains(b.last()));
        assert(a.contains(b.last()));
        let m = choose|m: int| 0 <= m < a.len() && a[m] == b.last();
        if k < b.len() - 1 {
            assert(lex_less(b[k], b[b.len() - 1]));
            if m < a.len() - 1 {
                assert(lex_less(a[m], a[a.len() - 1]));
                lemma_lex_transitive(a.last(), b.last(), a.last());
            }
            lemma_lex_irreflexive(a.last());
        }
        let a1 = a.drop_last();
        let b1 = b.drop_last();
        assert forall|x: Seq<char>| a1.contains(x) <==> b1.contains(x) by {
            lemma_lex_irreflexive(x);
            if a1.contains(x) {
                let i = choose|i: int| 0 <= i < a1.len() && a1[i] == x;
                assert(a[i] == x);
                assert(a.contains(x));
                assert(lex_less(a[i], a[a.len() - 1]));
                let j = choose|j: int| 0 <= j < b.len() && b[j] == x;
                assert(j != b.len() - 1);
                assert(b1[j] == x);
            }
            if b1.contains(x) {
                let i = choose|i: int| 0 <= i < b1.len() && b1[i] == x;
                assert(b[i] == x);
                assert(b.contains(x));
                assert(lex_less(b[i], b[b.len() - 1]));
                let j = choose|j: int| 0 <= j < a.len() && a[j] == x;
                assert(j != a.len() - 1);
                assert(a1[j] == x);
            }
        }
        sorted_lists_are_determined(a1, b1);
        assert(a =~= a1.push(a.last()));
        assert(b =~= b1.push(b.last()));
    }
}

fn insert_sorted(r: &mut Vec<String>, x: &String)
    requires
        strictly_sorted(views(old(r)@)),
    ensures
        strictly_sorted(views(final(r)@)),
        forall|y: Seq<char>|
            views(final(r)@).contains(y) <==> views(old(r)@).contains(y) || y == x@,
{
    let ghost before = views(r@);
    let mut k: usize = 0;
    while k < r.len() && less(r[k].as_str(), x.as_str())
        invariant
            k <= r@.len(),
            before == views(r@),
            forall|i: int| 0 <= i < k ==> lex_less(#[trigger] before[i], x@),
        decreases r@.len() - k,
    {
        assert(before[k as int] == r@[k as int]@);
        k += 1;
    }
    if k < r.len() && r[k] == *x {
        assert(before[k as int] == x@);
        assert forall|y: Seq<char>|
            views(r@).contains(y) <==> before.contains(y) || y == x@ by {
            if y == x@ {
                assert(before[k as int] == y);
            }
        }
        return;
    }
    proof {
        if k < r@.len() {
            assert(before[k as int] == r@[k as int]@);
            lemma_lex_total(before[k as int], x@);
        }
    }
    r.insert(k, x.clone());
    let ghost after = views(r@);
    assert(after =~= before.insert(k as int, x@));
    assert forall|i: int, j: int| 0 <= i < j < after.len() implies lex_less(
        #[trigger] after[i],
        #[trigger] after[j],
    ) by {
        let i0 = if i < k { i } else { i - 1 };
        let j0 = if j < k { j } else { j - 1 };
        if i == k {
            if j0 > k {
                assert(lex_less(before[k as int], before[j0]));
                lemma_lex_transitive(x@, before[k as int], before[j0]);
            }
        } else if j == k {
            assert(lex_less(before[i0], x@));
        } else {
            assert(lex_less(before[i0], before[j0]));
        }
    }
    assert forall|y: Seq<char>| after.contains(y) <==> before.contains(y) || y == x@ by {
        if after.contains(y) {
            let i = choose|i: int| 0 <= i < after.len() && after[i] == y;
            if i < k {
                assert(before[i] == y);
            } else if i > k {
                assert(before[i - 1] == y);
            }
        }
        if before.contains(y) {
            let i = choose|i: int| 0 <= i < before.len() && before[i] == y;
            if i < k {
                assert(after[i] == y);
            } else {
                assert(after[i + 1] == y);
            }
        }
        if y == x@ {
            assert(after[k as int] == y);
        }
    }
}

/// The texts of a list in order, each once.
pub fn sort_dedup(v: &Vec<String>) -> (r: Vec<String>)
    ensures
        strictly_sorted(views(r@)),
        forall|y: Seq<char>| views(r@).contains(y) <==> views(v@).contains(y),
{
    let mut r: Vec<String> = Vec::new();
    let mut i: usize = 0;
    let ghost all = views(v@);
    assert forall|y: Seq<char>| views(r@).contains(y) <==> all.take(0).contains(y) by {};
    while i < v.len()
        invariant
            i <= v@.len(),
            all == views(v@),
            strictly_sorted(views(r@)),
            forall|y: Seq<char>| views(r@).contains(y) <==> all.take(i as int).contains(y),
        decreases v@.len() - i,
    {
        let ghost before = views(r@);
        insert_sorted(&mut r, &v[i]);
        assert(all[i as int] == v@[i as int]@);
        let ghost seen = all.take(i as int);
        let ghost now = all.take(i + 1);
        assert(now =~= seen.push(all[i as int]));
        assert forall|y: Seq<char>| views(r@).contains(y) <==> now.contains(y) by {
            if now.contains(y) {
                let j = choose|j: int| 0 <= j < now.len() && now[j] == y;
                if j < i {
                    assert(seen[j] == y);
                }
            }
            if seen.contains(y) {
                let j = choose|j: int| 0 <= j < seen.len() && seen[j] == y;
                assert(now[j] == y);
            }
            if y == all[i as int] {
                assert(now[i as int] == y);
            }
        }
        i += 1;
    }
    assert(all.take(all.len() as int) =~= all);
    r
}

} // verus!
