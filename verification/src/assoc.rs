//! Lookup tables with text keys.
use crate::text::{holds_text, views};
use vstd::prelude::*;

verus! {

/// A table from texts to values. `well_formed` says that no key occurs twice.
#[derive(Debug)]
pub struct Assoc<V> {
    pub entries: Vec<(String, V)>,
}

/// The first entry at or after `i` with key `k`.
pub open spec fn key_from<V>(s: Seq<(String, V)>, k: Seq<char>, i: int) -> Option<int>
    decreases s.len() - i,
{
    if i < 0 || i >= s.len() {
        None
    } else if s[i].0@ == k {
        Some(i)
    } else {
        key_from(s, k, i + 1)
    }
}

/// The entry that a search finds has the key and is the first to.
pub proof fn lemma_key_from<V>(s: Seq<(String, V)>, k: Seq<char>, i: int)
    requires
        0 <= i,
    ensures
        match key_from(s, k, i) {
            Some(j) => i <= j < s.len() && s[j].0@ == k && (forall|m: int|
                i <= m < j ==> (#[trigger] s[m]).0@ != k),
            None => forall|m: int| i <= m < s.len() ==> (#[trigger] s[m]).0@ != k,
        },
    decreases s.len() - i,
{
    if i < s.len() && s[i].0@ != k {
        lemma_key_from(s, k, i + 1);
    }
}

impl<V> Assoc<V> {
    /// No key occurs twice.
    pub open spec fn well_formed(self) -> bool {
        forall|i: int, j: int|
            0 <= i < j < self.entries@.len() ==> (#[trigger] self.entries@[i]).0@ != (
            #[trigger] self.entries@[j]).0@
    }

    /// What the table holds under `k`.
    pub open spec fn lookup(self, k: Seq<char>) -> Option<V> {
        match key_from(self.entries@, k, 0) {
            Some(i) => Some(self.entries@[i].1),
            None => None,
        }
    }

    /// The table holds something under `k`.
    pub open spec fn has_key(self, k: Seq<char>) -> bool {
        self.lookup(k) is Some
    }

    /// An empty table.
    pub fn new() -> (r: Self)
        ensures
            r.entries@.len() == 0,
            r.well_formed(),
            forall|k: Seq<char>| r.lookup(k) is None,
    {
        Assoc { entries: Vec::new() }
    }

    /// The position of key `k`.
    pub fn position(&self, k: &str) -> (r: Option<usize>)
        ensures
            match r {
                Some(i) => key_from(self.entries@, k@, 0) == Some(i as int) && i
                    < self.entries@.len() && self.entries@[i as int].0@ == k@,
                None => key_from(self.entries@, k@, 0) is None,
            },
    {
        let mut i: usize = 0;
        while i < self.entries.len()
            invariant
                i <= self.entries@.len(),
                key_from(self.entries@, k@, 0) == key_from(self.entries@, k@, i as int),
            decreases self.entries@.len() - i,
        {
            if crate::text::same(self.entries[i].0.as_str(), k) {
                return Some(i);
            }
            i += 1;
        }
        None
    }

    /// What the table holds under `k`.
    pub fn get(&self, k: &str) -> (r: Option<&V>)
        ensures
            match r {
                Some(v) => self.lookup(k@) == Some(*v),
                None => self.lookup(k@) is None,
            },
    {
        match self.position(k) {
            Some(i) => Some(&self.entries[i].1),
            None => None,
        }
    }

    /// Whether the table holds something under `k`.
    pub fn contains_key(&self, k: &str) -> (r: bool)
        ensures
            r == self.has_key(k@),
    {
        match self.position(k) {
            Some(_) => true,
            None => false,
        }
    }

    /// Puts `v` under `k`, in place of what was there.
    pub fn insert(&mut self, k: String, v: V)
        requires
            old(self).well_formed(),
        ensures
            final(self).well_formed(),
            final(self).lookup(k@) == Some(v),
            forall|q: Seq<char>| q != k@ ==> #[trigger] final(self).lookup(q) == old(self).lookup(q),
            old(self).lookup(k@) is None ==> final(self).entries@ == old(self).entries@.push((k, v)),
    {
        let ghost before = self.entries@;
        match self.position(k.as_str()) {
            Some(i) => {
                proof {
                    lemma_key_from(before, k@, 0);
                }
                self.entries[i].1 = v;
                let ghost after = self.entries@;
                assert(after =~= before.update(i as int, (before[i as int].0, v)));
                assert forall|q: Seq<char>| true implies #[trigger] key_from(after, q, 0)
                    == key_from(before, q, 0) by {
                    lemma_same_keys(before, after, q, 0);
                }
                assert forall|q: Seq<char>| q != k@ implies #[trigger] self.lookup(q) == old(
                    self,
                ).lookup(q) by {
                    lemma_key_from(before, q, 0);
                    assert(key_from(after, q, 0) == key_from(before, q, 0));
                }
                assert(key_from(after, k@, 0) == key_from(before, k@, 0));
            },
            None => {
                proof {
                    lemma_key_from(before, k@, 0);
                }
                self.entries.push((k, v));
                let ghost after = self.entries@;
                assert(after =~= before.push((k, v)));
                assert forall|q: Seq<char>| true implies #[trigger] key_from(after, q, 0) == (
                match key_from(before, q, 0) {
                    Some(j) => Some(j),
                    None => if q == k@ {
                        Some(before.len() as int)
                    } else {
                        None
                    },
                }) by {
                    lemma_pushed_key(before, (k, v), q, 0);
                }
                assert forall|q: Seq<char>| q != k@ implies #[trigger] self.lookup(q) == old(
                    self,
                ).lookup(q) by {
                    lemma_key_from(before, q, 0);
                    assert(key_from(after, q, 0) == key_from(before, q, 0));
                }
                assert(key_from(after, k@, 0) == Some(before.len() as int));
            },
        }
    }

    /// Keeps only what the table holds under one of the keys.
    pub fn retain(&mut self, keys: &Vec<String>)
        requires
            old(self).well_formed(),
        ensures
            final(self).well_formed(),
            forall|k: Seq<char>|
                #[trigger] final(self).lookup(k) == (if views(keys@).contains(k) {
                    old(self).lookup(k)
                } else {
                    None
                }),
    {
        let ghost before = *self;
        let ghost kept = views(keys@);
        let mut i: usize = 0;
        while i < self.entries.len()
            invariant
                i <= self.entries@.len(),
                self.well_formed(),
                kept == views(keys@),
                forall|k: Seq<char>|
                    kept.contains(k) ==> #[trigger] self.lookup(k) == before.lookup(k),
                forall|m: int| 0 <= m < i ==> kept.contains((#[trigger] self.entries@[m]).0@),
            decreases self.entries@.len() - i,
        {
            let ghost prior = *self;
            let ghost now = self.entries@;
            if holds_text(keys, self.entries[i].0.as_str()) {
                i += 1;
            } else {
                let e = self.entries.remove(i);
                assert(self.entries@ =~= now.remove(i as int));
                assert forall|k: Seq<char>| kept.contains(k) implies #[trigger] self.lookup(k)
                    == before.lookup(k) by {
                    assert(prior.lookup(k) == before.lookup(k));
                    lemma_removed_key(now, i as int, k);
                    lemma_key_from(now, k, 0);
                }
            }
        }
        assert forall|k: Seq<char>| #[trigger] self.lookup(k) == (if kept.contains(k) {
            before.lookup(k)
        } else {
            None
        }) by {
            lemma_key_from(self.entries@, k, 0);
        }
    }

    /// Takes out what the table holds under `k`.
    pub fn remove(&mut self, k: &str) -> (r: Option<V>)
        requires
            old(self).well_formed(),
        ensures
            final(self).well_formed(),
            r == old(self).lookup(k@),
            final(self).lookup(k@) is None,
            forall|q: Seq<char>| q != k@ ==> #[trigger] final(self).lookup(q) == old(self).lookup(q),
            final(self).entries@.len() == old(self).entries@.len() - (if r is Some {
                1int
            } else {
                0int
            }),
    {
        let ghost before = self.entries@;
        match self.position(k) {
            Some(i) => {
                let e = self.entries.remove(i);
                let ghost after = self.entries@;
                assert(after =~= before.remove(i as int));
                assert forall|q: Seq<char>| q != k@ implies #[trigger] self.lookup(q) == old(
                    self,
                ).lookup(q) by {
                    lemma_removed_key(before, i as int, q);
                }
                proof {
                    lemma_key_from(after, k@, 0);
                }
                Some(e.1)
            },
            None => None,
        }
    }
}

proof fn lemma_removed_key<V>(s: Seq<(String, V)>, i: int, q: Seq<char>)
    requires
        0 <= i < s.len(),
        s[i].0@ != q,
        forall|a: int, b: int| 0 <= a < b < s.len() ==> (#[trigger] s[a]).0@ != (#[trigger] s[b]).0@,
    ensures
        match key_from(s, q, 0) {
            Some(j) => key_from(s.remove(i), q, 0) == Some(
                if j < i {
                    j
                } else {
                    j - 1
                },
            ) && j != i && 0 <= j < s.len(),
            None => key_from(s.remove(i), q, 0) is None,
        },
{
    let t = s.remove(i);
    lemma_key_from(s, q, 0);
    lemma_key_from(t, q, 0);
    match key_from(s, q, 0) {
        Some(j) => {
            let m = if j < i {
                j
            } else {
                j - 1
            };
            assert(t[m] == s[j]);
            let f = key_from(t, q, 0).unwrap();
            assert(t[f] == s[if f < i {
                f
            } else {
                f + 1
            }]);
        },
        None => {
            if key_from(t, q, 0) is Some {
                let f = key_from(t, q, 0).unwrap();
                assert(t[f] == s[if f < i {
                    f
                } else {
                    f + 1
                }]);
            }
        },
    }
}

proof fn lemma_same_keys<V>(a: Seq<(String, V)>, b: Seq<(String, V)>, k: Seq<char>, i: int)
    requires
        a.len() == b.len(),
        forall|j: int| 0 <= j < a.len() ==> (#[trigger] a[j]).0 == b[j].0,
    ensures
        key_from(a, k, i) == key_from(b, k, i),
    decreases a.len() - i,
{
    if 0 <= i < a.len() {
        assert(a[i].0 == b[i].0);
        if a[i].0@ != k {
            lemma_same_keys(a, b, k, i + 1);
        }
    }
}

proof fn lemma_pushed_key<V>(a: Seq<(String, V)>, e: (String, V), k: Seq<char>, i: int)
    requires
        0 <= i <= a.len(),
    ensures
        key_from(a.push(e), k, i) == match key_from(a, k, i) {
            Some(j) => Some(j),
            None => if k == e.0@ {
                Some(a.len() as int)
            } else {
                None
            },
        },
    decreases a.len() - i,
{
    if i < a.len() {
        assert(a.push(e)[i] == a[i]);
        if a[i].0@ != k {
            lemma_pushed_key(a, e, k, i + 1);
        }
    } else {
        assert(key_from(a.push(e), k, i + 1) is None);
    }
}

} // verus!
