//! Sessions on other devices that are bound to local surfaces.
use crate::assoc::Assoc;
use crate::handoff::RemoteSessionLocator;
use crate::order::{less, lex_less};
use crate::surface::SurfaceInfo;
use crate::text::{clone_opt, same};
use vstd::prelude::*;

verus! {

/// How current a remote session's state is.
#[derive(Debug, Clone, Copy, PartialEq, Eq, Structural)]
pub enum RemoteFreshness {
    Fresh,
    Syncing,
    Stale,
    Gone,
}

/// What a remote session is doing.
#[derive(Debug, Clone, Copy, PartialEq, Eq, Structural)]
pub enum RemoteActivity {
    Actionable,
    Working,
    Idle,
}

/// The state of a remote session bound to a local surface.
#[derive(Debug, PartialEq, Eq)]
pub struct RemoteSurfaceState {
    pub surface_uuid: String,
    pub workspace_uuid: String,
    pub locator: RemoteSessionLocator,
    pub name: Option<String>,
    pub agent: Option<String>,
    pub state: Option<String>,
    pub health: Option<String>,
    pub launch_cwd: Option<String>,
    pub current_work: Option<String>,
    pub freshness: RemoteFreshness,
}

impl Clone for RemoteSurfaceState {
    fn clone(&self) -> (r: Self)
        ensures
            r == *self,
    {
        RemoteSurfaceState {
            surface_uuid: self.surface_uuid.clone(),
            workspace_uuid: self.workspace_uuid.clone(),
            locator: self.locator.clone(),
            name: clone_opt(&self.name),
            agent: clone_opt(&self.agent),
            state: clone_opt(&self.state),
            health: clone_opt(&self.health),
            launch_cwd: clone_opt(&self.launch_cwd),
            current_work: clone_opt(&self.current_work),
            freshness: self.freshness,
        }
    }
}

impl RemoteSurfaceState {
    /// What the session is doing: waiting for the user, working, or neither.
    pub open spec fn activity_spec(self) -> RemoteActivity {
        match self.state {
            Some(s) => if s@ == "waiting"@ {
                RemoteActivity::Actionable
            } else if s@ == "working"@ {
                RemoteActivity::Working
            } else {
                RemoteActivity::Idle
            },
            None => RemoteActivity::Idle,
        }
    }

    /// What the session is doing.
    pub fn activity(&self) -> (r: RemoteActivity)
        ensures
            r == self.activity_spec(),
    {
        match &self.state {
            Some(s) => {
                if same(s.as_str(), "waiting") {
                    RemoteActivity::Actionable
                } else if same(s.as_str(), "working") {
                    RemoteActivity::Working
                } else {
                    RemoteActivity::Idle
                }
            },
            None => RemoteActivity::Idle,
        }
    }

    /// The state, no longer current. A session that is gone stays gone.
    pub open spec fn staled(self) -> RemoteSurfaceState {
        if self.freshness == RemoteFreshness::Gone {
            self
        } else {
            RemoteSurfaceState { freshness: RemoteFreshness::Stale, ..self }
        }
    }

    /// Marks the state as no longer current.
    pub fn mark_stale(&mut self)
        ensures
            *final(self) == old(self).staled(),
    {
        if self.freshness != RemoteFreshness::Gone {
            self.freshness = RemoteFreshness::Stale;
        }
    }
}

/// A remote entry that is not gone.
pub open spec fn is_active(e: (String, RemoteSurfaceState)) -> bool {
    e.1.freshness != RemoteFreshness::Gone
}

/// The place of an activity: what waits for the user comes first.
pub open spec fn rank(a: RemoteActivity) -> int {
    match a {
        RemoteActivity::Actionable => 0,
        RemoteActivity::Working => 1,
        RemoteActivity::Idle => 2,
    }
}

/// `a` comes before `b`: by activity, then by surface.
pub open spec fn precedes(a: (String, RemoteSurfaceState), b: (String, RemoteSurfaceState)) -> bool {
    rank(a.1.activity_spec()) < rank(b.1.activity_spec()) || (rank(a.1.activity_spec()) == rank(
        b.1.activity_spec(),
    ) && lex_less(a.0@, b.0@))
}

/// `order` lists the active entries, each once, in their order.
pub open spec fn is_active_order(s: Seq<(String, RemoteSurfaceState)>, order: Seq<int>) -> bool {
    &&& forall|k: int| 0 <= k < order.len() ==> 0 <= #[trigger] order[k] < s.len() && is_active(s[order[k]])
    &&& forall|i: int| 0 <= i < s.len() && is_active(#[trigger] s[i]) ==> order.contains(i)
    &&& forall|k: int, m: int|
        0 <= k < m < order.len() ==> precedes(s[#[trigger] order[k]], s[#[trigger] order[m]])
}

fn rank_of(a: RemoteActivity) -> (r: u8)
    ensures
        r == rank(a),
{
    match a {
        RemoteActivity::Actionable => 0,
        RemoteActivity::Working => 1,
        RemoteActivity::Idle => 2,
    }
}

fn comes_before(a: &(String, RemoteSurfaceState), b: &(String, RemoteSurfaceState)) -> (r: bool)
    ensures
        r == precedes(*a, *b),
{
    let x: u8 = rank_of(a.1.activity());
    let y: u8 = rank_of(b.1.activity());
    x < y || (x == y && less(a.0.as_str(), b.0.as_str()))
}

proof fn lemma_precedes_transitive(
    a: (String, RemoteSurfaceState),
    b: (String, RemoteSurfaceState),
    c: (String, RemoteSurfaceState),
)
    requires
        precedes(a, b),
        precedes(b, c),
    ensures
        precedes(a, c),
{
    if lex_less(a.0@, b.0@) && lex_less(b.0@, c.0@) {
        crate::order::lemma_lex_transitive(a.0@, b.0@, c.0@);
    }
}

proof fn lemma_precedes_total(a: (String, RemoteSurfaceState), b: (String, RemoteSurfaceState))
    requires
        a.0@ != b.0@,
    ensures
        precedes(a, b) || precedes(b, a),
{
    crate::order::lemma_lex_total(a.0@, b.0@);
}

/// There is only one order of the active entries, so what is read off its head
/// does not change between refreshes.
pub proof fn active_order_is_determined(
    s: Seq<(String, RemoteSurfaceState)>,
    a: Seq<int>,
    b: Seq<int>,
)
    requires
        is_active_order(s, a),
        is_active_order(s, b),
    ensures
        a == b,
{
    lemma_same_order(s, a, b, a.len() as int);
    lemma_same_order(s, b, a, b.len() as int);
    if a.len() < b.len() {
        assert(b[a.len() as int] == b[a.len() as int]);
        let x = b[a.len() as int];
        assert(is_active(s[x]));
        assert(a.contains(x));
        let k = choose|k: int| 0 <= k < a.len() && a[k] == x;
        assert(b[k] == a[k]);
        lemma_precedes_irreflexive(s[x]);
        assert(precedes(s[b[k]], s[b[a.len() as int]]));
    }
    if b.len() < a.len() {
        let x = a[b.len() as int];
        assert(is_active(s[x]));
        assert(b.contains(x));
        let k = choose|k: int| 0 <= k < b.len() && b[k] == x;
        assert(b[k] == a[k]);
        lemma_precedes_irreflexive(s[x]);
        assert(precedes(s[a[k]], s[a[b.len() as int]]));
    }
    assert(a =~= b);
}

proof fn lemma_precedes_irreflexive(a: (String, RemoteSurfaceState))
    ensures
        !precedes(a, a),
{
    crate::order::lemma_lex_irreflexive(a.0@);
}

proof fn lemma_same_order(s: Seq<(String, RemoteSurfaceState)>, a: Seq<int>, b: Seq<int>, n: int)
    requires
        is_active_order(s, a),
        is_active_order(s, b),
        0 <= n <= a.len(),
    ensures
        forall|k: int| 0 <= k < n && k < b.len() ==> #[trigger] a[k] == b[k],
    decreases n,
{
    if n > 0 {
        lemma_same_order(s, a, b, n - 1);
        let k = n - 1;
        if k < b.len() && a[k] != b[k] {
            assert(is_active(s[a[k]]) && is_active(s[b[k]]));
            assert(b.contains(a[k]));
            assert(a.contains(b[k]));
            let i = choose|i: int| 0 <= i < b.len() && b[i] == a[k];
            let j = choose|j: int| 0 <= j < a.len() && a[j] == b[k];
            if i < k {
                assert(a[i] == b[i]);
                assert(precedes(s[a[i]], s[a[k]]));
                lemma_precedes_irreflexive(s[a[k]]);
            } else if j < k {
                assert(a[j] == b[j]);
                assert(precedes(s[b[j]], s[b[k]]));
                lemma_precedes_irreflexive(s[b[k]]);
            } else {
                assert(precedes(s[b[k]], s[b[i]]));
                assert(precedes(s[a[k]], s[a[j]]));
                lemma_precedes_transitive(s[a[k]], s[b[k]], s[a[k]]);
                lemma_precedes_irreflexive(s[a[k]]);
            }
        }
    }
}

/// The positions as mathematical integers.
pub open spec fn positions(v: Seq<usize>) -> Seq<int> {
    v.map_values(|i: usize| i as int)
}

fn insert_position(order: &mut Vec<usize>, remotes: &Assoc<RemoteSurfaceState>, x: usize)
    requires
        remotes.well_formed(),
        x < remotes.entries@.len(),
        forall|k: int|
            0 <= k < old(order)@.len() ==> (#[trigger] old(order)@[k]) < x,
        forall|k: int, m: int|
            0 <= k < m < old(order)@.len() ==> precedes(
                remotes.entries@[#[trigger] old(order)@[k] as int],
                remotes.entries@[#[trigger] old(order)@[m] as int],
            ),
    ensures
        forall|k: int, m: int|
            0 <= k < m < final(order)@.len() ==> precedes(
                remotes.entries@[#[trigger] final(order)@[k] as int],
                remotes.entries@[#[trigger] final(order)@[m] as int],
            ),
        exists|p: int|
            0 <= p <= old(order)@.len() && final(order)@ == #[trigger] old(order)@.insert(p, x),
{
    let ghost before = order@;
    let ghost s = remotes.entries@;
    let n: usize = remotes.entries.len();
    let mut p: usize = 0;
    while p < order.len() && comes_before(&remotes.entries[order[p]], &remotes.entries[x])
        invariant
            p <= order@.len(),
            order@ == before,
            s == remotes.entries@,
            n == s.len(),
            x < n,
            forall|k: int| 0 <= k < before.len() ==> (#[trigger] before[k]) < x,
            forall|k: int| 0 <= k < p ==> precedes(s[#[trigger] before[k] as int], s[x as int]),
        decreases order@.len() - p,
    {
        p += 1;
    }
    proof {
        if p < before.len() {
            assert(before[p as int] < x);
            assert(s[before[p as int] as int].0@ != s[x as int].0@);
            lemma_precedes_total(s[before[p as int] as int], s[x as int]);
        }
    }
    order.insert(p, x);
    let ghost after = order@;
    assert(after == before.insert(p as int, x));
    assert forall|k: int, m: int| 0 <= k < m < after.len() implies precedes(
        s[#[trigger] after[k] as int],
        s[#[trigger] after[m] as int],
    ) by {
        let k0 = if k < p { k } else { k - 1 };
        let m0 = if m < p { m } else { m - 1 };
        if k == p {
            if m0 > p {
                assert(precedes(s[before[p as int] as int], s[before[m0] as int]));
                lemma_precedes_transitive(
                    s[x as int],
                    s[before[p as int] as int],
                    s[before[m0] as int],
                );
            }
        } else if m == p {
            assert(precedes(s[before[k0] as int], s[x as int]));
        } else {
            assert(precedes(s[before[k0] as int], s[before[m0] as int]));
        }
    }
}

/// The active remote sessions in their stable order.
pub fn active_order(remotes: &Assoc<RemoteSurfaceState>) -> (r: Vec<usize>)
    requires
        remotes.well_formed(),
    ensures
        is_active_order(remotes.entries@, positions(r@)),
        forall|k: int| 0 <= k < r@.len() ==> (#[trigger] r@[k]) < remotes.entries@.len(),
{
    let ghost s = remotes.entries@;
    let mut order: Vec<usize> = Vec::new();
    let mut i: usize = 0;
    while i < remotes.entries.len()
        invariant
            i <= remotes.entries@.len(),
            s == remotes.entries@,
            remotes.well_formed(),
            forall|k: int| 0 <= k < order@.len() ==> (#[trigger] order@[k]) < i,
            forall|k: int| 0 <= k < order@.len() ==> is_active(s[#[trigger] order@[k] as int]),
            forall|j: int| 0 <= j < i && is_active(#[trigger] s[j]) ==> order@.contains(j as usize),
            forall|k: int, m: int|
                0 <= k < m < order@.len() ==> precedes(
                    s[#[trigger] order@[k] as int],
                    s[#[trigger] order@[m] as int],
                ),
        decreases remotes.entries@.len() - i,
    {
        if remotes.entries[i].1.freshness != RemoteFreshness::Gone {
            let ghost before = order@;
            insert_position(&mut order, remotes, i);
            let ghost after = order@;
            proof {
                let p = choose|p: int|
                    0 <= p <= before.len() && after == #[trigger] before.insert(p, i);
                assert forall|k: int| 0 <= k < after.len() implies (#[trigger] after[k]) < i + 1
                    && is_active(s[after[k] as int]) by {
                    if k < p {
                        assert(after[k] == before[k]);
                    } else if k > p {
                        assert(after[k] == before[k - 1]);
                    }
                }
                assert forall|j: int| 0 <= j < i + 1 && is_active(#[trigger] s[j]) implies after.contains(
                    j as usize,
                ) by {
                    if j < i {
                        let k = choose|k: int| 0 <= k < before.len() && before[k] == j as usize;
                        if k < p {
                            assert(after[k] == j as usize);
                        } else {
                            assert(after[k + 1] == j as usize);
                        }
                    } else {
                        assert(after[p] == i);
                    }
                }
            }
        }
        i += 1;
    }
    proof {
        let o = positions(order@);
        assert forall|k: int| 0 <= k < o.len() implies 0 <= #[trigger] o[k] < s.len() && is_active(
            s[o[k]],
        ) by {
            assert(o[k] == order@[k] as int);
        }
        assert forall|j: int| 0 <= j < s.len() && is_active(#[trigger] s[j]) implies o.contains(
            j,
        ) by {
            let k = choose|k: int| 0 <= k < order@.len() && order@[k] == j as usize;
            assert(o[k] == j);
        }
        assert forall|k: int, m: int| 0 <= k < m < o.len() implies precedes(
            s[#[trigger] o[k]],
            s[#[trigger] o[m]],
        ) by {
            assert(o[k] == order@[k] as int && o[m] == order@[m] as int);
        }
    }
    order
}

/// Whether a surface shows as current: only a remote that is gone does not.
pub fn remote_surface_is_current(remote: Option<&RemoteSurfaceState>) -> (r: bool)
    ensures
        r == match remote {
            Some(s) => s.freshness != RemoteFreshness::Gone,
            None => true,
        },
{
    match remote {
        Some(s) => s.freshness != RemoteFreshness::Gone,
        None => true,
    }
}

/// One of the surfaces has the given reference.
pub open spec fn surface_exists(surfaces: Seq<SurfaceInfo>, surface_ref: Seq<char>) -> bool {
    exists|i: int| 0 <= i < surfaces.len() && (#[trigger] surfaces[i]).ref_id@ == surface_ref
}

/// Whether one of the surfaces has the given reference.
pub fn has_surface(surfaces: &Vec<SurfaceInfo>, surface_ref: &str) -> (r: bool)
    ensures
        r == surface_exists(surfaces@, surface_ref@),
{
    let mut i: usize = 0;
    while i < surfaces.len()
        invariant
            i <= surfaces@.len(),
            forall|k: int| 0 <= k < i ==> (#[trigger] surfaces@[k]).ref_id@ != surface_ref@,
        decreases surfaces@.len() - i,
    {
        if same(surfaces[i].ref_id.as_str(), surface_ref) {
            return true;
        }
        i += 1;
    }
    false
}

/// The first `n` entries as stale, those whose surface is gone left out.
pub open spec fn retained(
    s: Seq<(String, RemoteSurfaceState)>,
    surfaces: Seq<SurfaceInfo>,
    n: int,
) -> Seq<(String, RemoteSurfaceState)>
    decreases n,
{
    if n <= 0 {
        Seq::empty()
    } else if surface_exists(surfaces, s[n - 1].0@) {
        retained(s, surfaces, n - 1).push((s[n - 1].0, s[n - 1].1.staled()))
    } else {
        retained(s, surfaces, n - 1)
    }
}

proof fn lemma_retained_keys(
    s: Seq<(String, RemoteSurfaceState)>,
    surfaces: Seq<SurfaceInfo>,
    n: int,
    k: int,
)
    requires
        0 <= n <= s.len(),
        0 <= k < retained(s, surfaces, n).len(),
    ensures
        exists|i: int| 0 <= i < n && (#[trigger] s[i]).0 == retained(s, surfaces, n)[k].0,
    decreases n,
{
    if surface_exists(surfaces, s[n - 1].0@) && k == retained(s, surfaces, n).len() - 1 {
        assert(s[n - 1].0 == retained(s, surfaces, n)[k].0);
    } else {
        lemma_retained_keys(s, surfaces, n - 1, k);
    }
}

/// When the mesh cannot be read, the known sessions are kept as stale, as far
/// as their surfaces still exist.
pub fn retain_remote_surfaces_as_stale(
    previous: &Assoc<RemoteSurfaceState>,
    surfaces: &Vec<SurfaceInfo>,
) -> (r: Assoc<RemoteSurfaceState>)
    requires
        previous.well_formed(),
    ensures
        r.well_formed(),
        r.entries@ == retained(previous.entries@, surfaces@, previous.entries@.len() as int),
{
    let ghost s = previous.entries@;
    let mut entries: Vec<(String, RemoteSurfaceState)> = Vec::new();
    let mut i: usize = 0;
    while i < previous.entries.len()
        invariant
            i <= previous.entries@.len(),
            s == previous.entries@,
            previous.well_formed(),
            entries@ == retained(s, surfaces@, i as int),
            forall|a: int, b: int|
                0 <= a < b < entries@.len() ==> (#[trigger] entries@[a]).0@ != (
                #[trigger] entries@[b]).0@,
        decreases previous.entries@.len() - i,
    {
        let key = &previous.entries[i].0;
        if has_surface(surfaces, key.as_str()) {
            let mut state = previous.entries[i].1.clone();
            state.mark_stale();
            let ghost before = entries@;
            entries.push((key.clone(), state));
            assert forall|a: int, b: int| 0 <= a < b < entries@.len() implies (
            #[trigger] entries@[a]).0@ != (#[trigger] entries@[b]).0@ by {
                if b == before.len() {
                    lemma_retained_keys(s, surfaces@, i as int, a);
                    let j = choose|j: int| 0 <= j < i && (#[trigger] s[j]).0 == before[a].0;
                    assert(s[j].0@ != s[i as int].0@);
                }
            }
        }
        i += 1;
    }
    Assoc { entries }
}

} // verus!
