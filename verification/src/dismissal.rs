//! Leaving workspaces behind: the grace period after the last surface closed, and
//! the confirmed request of the user.
use crate::app::{edited, index_of, lemma_last_index, only_workspaces, App};
use crate::clock::Moment;
use crate::text::{lemma_views_push, opt_view, same, views};
use crate::workspace::{DismissalState, WorkspaceState};
use vstd::prelude::*;

verus! {

/// How long ago a confirmed request puts the start of the grace period: ten minutes.
pub const BACKDATED_NANOS: u64 = 600_000_000_000;

/// The identities of those among the first `n` workspaces that `p` holds of.
pub open spec fn ids_where(
    s: Seq<WorkspaceState>,
    p: spec_fn(WorkspaceState) -> bool,
    n: int,
) -> Seq<Seq<char>>
    decreases n,
{
    if n <= 0 {
        Seq::empty()
    } else if p(s[n - 1]) {
        ids_where(s, p, n - 1).push(s[n - 1].workspace.uuid@)
    } else {
        ids_where(s, p, n - 1)
    }
}

/// The identity of a chosen workspace is listed.
pub proof fn every_chosen_workspace_is_listed(
    s: Seq<WorkspaceState>,
    p: spec_fn(WorkspaceState) -> bool,
    n: int,
    i: int,
)
    requires
        0 <= i < n <= s.len(),
        p(s[i]),
    ensures
        ids_where(s, p, n).contains(s[i].workspace.uuid@),
    decreases n,
{
    let before = ids_where(s, p, n - 1);
    if i == n - 1 {
        assert(ids_where(s, p, n)[before.len() as int] == s[i].workspace.uuid@);
    } else {
        every_chosen_workspace_is_listed(s, p, n - 1, i);
        let k = choose|k: int| 0 <= k < before.len() && before[k] == s[i].workspace.uuid@;
        assert(ids_where(s, p, n)[k] == s[i].workspace.uuid@);
    }
}

/// Every listed identity belongs to a chosen workspace.
pub proof fn only_chosen_workspaces_are_listed(
    s: Seq<WorkspaceState>,
    p: spec_fn(WorkspaceState) -> bool,
    n: int,
    k: int,
)
    requires
        0 <= n <= s.len(),
        0 <= k < ids_where(s, p, n).len(),
    ensures
        exists|i: int|
            0 <= i < n && p(#[trigger] s[i]) && s[i].workspace.uuid@ == ids_where(s, p, n)[k],
    decreases n,
{
    if n > 0 {
        if p(s[n - 1]) && k == ids_where(s, p, n).len() - 1 {
            assert(p(s[n - 1]));
        } else {
            only_chosen_workspaces_are_listed(s, p, n - 1, k);
        }
    }
}

/// The count of open surfaces after it changed. The grace period starts when the
/// last surface closes and ends when one opens.
pub open spec fn counted_surfaces(d: DismissalState, count: u32, now: Moment) -> DismissalState {
    DismissalState {
        open_surfaces: count,
        grace_started_at: if count == 0 && d.open_surfaces != 0 {
            Some(now)
        } else if count > 0 {
            None
        } else {
            d.grace_started_at
        },
        dismissing: d.dismissing,
    }
}

/// The grace period of a workspace is over, and its dismissal is not under way.
pub open spec fn is_ready(w: WorkspaceState, grace: u64, now: Moment) -> bool {
    !w.dismissal.dismissing && match w.dismissal.grace_started_at {
        Some(t) => t.elapsed_spec(now) >= grace,
        None => false,
    }
}

/// The start of a grace period that is long over.
pub open spec fn backdated(now: Moment) -> Moment {
    Moment {
        nanos: (if now.nanos >= i64::MIN + BACKDATED_NANOS {
            now.nanos - BACKDATED_NANOS
        } else {
            i64::MIN as int
        }) as i64,
    }
}

fn date_back(now: Moment) -> (r: Moment)
    ensures
        r == backdated(now),
{
    let span: i64 = BACKDATED_NANOS as i64;
    if now.nanos >= i64::MIN + span {
        Moment { nanos: now.nanos - span }
    } else {
        Moment { nanos: i64::MIN }
    }
}

/// A workspace whose dismissal was requested and confirmed.
pub open spec fn requested(w: WorkspaceState, now: Moment) -> WorkspaceState {
    if w.dismissal.dismissing {
        w
    } else {
        WorkspaceState {
            dismissal: DismissalState {
                grace_started_at: Some(backdated(now)),
                ..w.dismissal
            },
            ..w
        }
    }
}

/// A request confirms the one that is pending.
pub open spec fn confirms(pending: Option<Seq<char>>, id: Seq<char>) -> bool {
    pending == Some(id)
}

/// The request that is pending after one for `id`.
pub open spec fn after_request(pending: Option<Seq<char>>, id: Seq<char>) -> Option<Seq<char>> {
    if confirms(pending, id) {
        None
    } else {
        Some(id)
    }
}

/// The selection among the `n` workspaces that are left.
pub open spec fn kept_selection(selected: int, n: int) -> int {
    if n > 0 && selected >= n {
        n - 1
    } else {
        selected
    }
}

impl App {
    /// Takes the count of a workspace's open surfaces.
    pub fn set_open_surfaces(&mut self, uuid: &str, count: u32, now: Moment)
        ensures
            old(self).well_formed() ==> final(self).well_formed(),
            only_workspaces(*old(self), *final(self)),
            final(self).workspaces@ == edited(
                old(self).workspaces@,
                uuid@,
                |w: WorkspaceState|
                    (WorkspaceState { dismissal: counted_surfaces(w.dismissal, count, now), ..w }),
            ),
    {
        if let Some(idx) = self.workspace_index_for(uuid) {
            let was_zero = self.workspaces[idx].dismissal.open_surfaces == 0;
            self.workspaces[idx].dismissal.open_surfaces = count;
            if count == 0 && !was_zero {
                self.workspaces[idx].dismissal.grace_started_at = Some(now);
            } else if count > 0 {
                self.workspaces[idx].dismissal.grace_started_at = None;
            }
        }
    }

    /// The workspaces whose grace period of `grace` nanoseconds is over.
    pub fn workspaces_ready_for_dismissal(&self, grace: u64, now: Moment) -> (r: Vec<String>)
        ensures
            views(r@) == ids_where(
                self.workspaces@,
                |w: WorkspaceState| is_ready(w, grace, now),
                self.workspaces@.len() as int,
            ),
    {
        let ghost p = |w: WorkspaceState| is_ready(w, grace, now);
        let mut out: Vec<String> = Vec::new();
        let mut i: usize = 0;
        assert(views(out@) =~= Seq::<Seq<char>>::empty());
        while i < self.workspaces.len()
            invariant
                i <= self.workspaces@.len(),
                p == (|w: WorkspaceState| is_ready(w, grace, now)),
                views(out@) == ids_where(self.workspaces@, p, i as int),
            decreases self.workspaces@.len() - i,
        {
            let ws = &self.workspaces[i];
            let ready = !ws.dismissal.dismissing && match ws.dismissal.grace_started_at {
                Some(t) => t.elapsed(now) >= grace,
                None => false,
            };
            if ready {
                let id = ws.workspace.uuid.clone();
                proof {
                    lemma_views_push(out@, id);
                }
                out.push(id);
            }
            i += 1;
        }
        out
    }

    /// Marks a workspace's dismissal as under way.
    pub fn mark_dismissing(&mut self, uuid: &str)
        ensures
            old(self).well_formed() ==> final(self).well_formed(),
            only_workspaces(*old(self), *final(self)),
            final(self).workspaces@ == edited(
                old(self).workspaces@,
                uuid@,
                |w: WorkspaceState|
                    (WorkspaceState {
                        dismissal: DismissalState { dismissing: true, ..w.dismissal },
                        ..w
                    }),
            ),
    {
        if let Some(idx) = self.workspace_index_for(uuid) {
            self.workspaces[idx].dismissal.dismissing = true;
        }
    }

    /// Forgets a dismissed workspace. The selection stays among those that are left.
    pub fn drop_dismissed_workspace(&mut self, uuid: &str)
        ensures
            old(self).well_formed() ==> final(self).well_formed(),
            match index_of(old(self).workspaces@, uuid@) {
                Some(i) => {
                    let left = old(self).workspaces@.remove(i);
                    &&& final(self).workspaces@ == left
                    &&& *final(self) == (App {
                        workspaces: final(self).workspaces,
                        selected: if left.len() > 0 && old(self).selected >= left.len() {
                            (left.len() - 1) as usize
                        } else {
                            old(self).selected
                        },
                        ..*old(self)
                    })
                },
                None => *final(self) == *old(self),
            },
            index_of(old(self).workspaces@, uuid@) is Some ==> final(self).selected == kept_selection(
                old(self).selected as int,
                old(self).workspaces@.len() - 1,
            ),
    {
        proof {
            lemma_last_index(self.workspaces@, uuid@, self.workspaces@.len() as int);
        }
        if let Some(idx) = self.workspace_index_for(uuid) {
            self.workspaces.remove(idx);
            let n: usize = self.workspaces.len();
            if n > 0 && self.selected >= n {
                self.selected = n - 1;
            }
        }
    }

    /// Ends a workspace's grace period at once.
    pub fn start_immediate_dismissal(&mut self, workspace_id: &str, now: Moment)
        ensures
            old(self).well_formed() ==> final(self).well_formed(),
            only_workspaces(*old(self), *final(self)),
            final(self).workspaces@ == edited(
                old(self).workspaces@,
                workspace_id@,
                |w: WorkspaceState| requested(w, now),
            ),
    {
        let ghost before = self.workspaces@;
        proof {
            lemma_last_index(before, workspace_id@, before.len() as int);
        }
        if let Some(idx) = self.workspace_index_for(workspace_id) {
            if !self.workspaces[idx].dismissal.dismissing {
                self.workspaces[idx].dismissal.grace_started_at = Some(
                    date_back(now),
                );
            } else {
                assert(before.update(idx as int, before[idx as int]) =~= before);
            }
        }
    }

    /// A request to dismiss a workspace. The first one only records it; a second one
    /// for the same workspace executes it and returns true.
    pub fn handle_dismissal_request(&mut self, workspace_id: &str, now: Moment) -> (r: bool)
        ensures
            old(self).well_formed() ==> final(self).well_formed(),
            r == confirms(opt_view(old(self).pending_dismissal), workspace_id@),
            *final(self) == (App {
                workspaces: final(self).workspaces,
                pending_dismissal: final(self).pending_dismissal,
                ..*old(self)
            }),
            opt_view(final(self).pending_dismissal) == after_request(
                opt_view(old(self).pending_dismissal),
                workspace_id@,
            ),
            final(self).workspaces@ == (if r {
                edited(
                    old(self).workspaces@,
                    workspace_id@,
                    |w: WorkspaceState| requested(w, now),
                )
            } else {
                old(self).workspaces@
            }),
    {
        let again = match &self.pending_dismissal {
            Some(prior) => same(prior.as_str(), workspace_id),
            None => false,
        };
        if again {
            self.pending_dismissal = None;
            self.start_immediate_dismissal(workspace_id, now);
            true
        } else {
            self.pending_dismissal = Some(String::from_str(workspace_id));
            false
        }
    }

    /// Forgets a request that was not confirmed.
    pub fn clear_pending_dismissal(&mut self)
        ensures
            old(self).well_formed() ==> final(self).well_formed(),
            *final(self) == (App { pending_dismissal: None, ..*old(self) }),
    {
        self.pending_dismissal = None;
    }

    /// The workspace whose dismissal waits for confirmation.
    pub fn pending_dismissal_workspace(&self) -> (r: Option<&str>)
        ensures
            (match r {
                Some(s) => Some(s@),
                None => None,
            }) == opt_view(self.pending_dismissal),
    {
        match &self.pending_dismissal {
            Some(s) => Some(s.as_str()),
            None => None,
        }
    }
}

/// A confirmed request makes the workspace ready for dismissal at any later moment,
/// for every grace period of up to ten minutes, unless the clock is within ten minutes
/// of the earliest moment that it can show.
pub proof fn a_confirmed_request_is_ready(
    w: WorkspaceState,
    grace: u64,
    now: Moment,
    later: Moment,
)
    requires
        !w.dismissal.dismissing,
        grace <= BACKDATED_NANOS,
        now.nanos >= i64::MIN + BACKDATED_NANOS,
        later.nanos >= now.nanos,
    ensures
        is_ready(requested(w, now), grace, later),
{
}

/// A surface that opens within the grace period cancels the dismissal.
pub proof fn reopening_cancels_dismissal(
    w: WorkspaceState,
    count: u32,
    grace: u64,
    now: Moment,
    later: Moment,
)
    requires
        count > 0,
    ensures
        !is_ready(
            (WorkspaceState { dismissal: counted_surfaces(w.dismissal, count, now), ..w }),
            grace,
            later,
        ),
{
}

/// Only a workspace that lost its last surface waits for dismissal: a count of zero
/// after a count of zero starts no new period.
pub proof fn the_grace_period_is_not_restarted(d: DismissalState, now: Moment)
    requires
        d.open_surfaces == 0,
    ensures
        counted_surfaces(d, 0, now) == d,
{
}

/// A workspace whose dismissal is under way is not chosen a second time.
pub proof fn a_dismissal_is_chosen_once(w: WorkspaceState, grace: u64, now: Moment)
    requires
        w.dismissal.dismissing,
    ensures
        !is_ready(w, grace, now),
{
}

/// A request takes effect when it is repeated, and only then: from no pending request,
/// three for one workspace are recorded, executed and recorded. One for another
/// workspace in between replaces the first.
pub proof fn every_second_request_executes(id: Seq<char>, other: Seq<char>)
    requires
        other != id,
    ensures
        ({
            let once = after_request(None, id);
            let twice = after_request(once, id);
            &&& !confirms(None, id)
            &&& confirms(once, id)
            &&& twice is None
            &&& !confirms(twice, id)
            &&& !confirms(once, other)
            &&& !confirms(after_request(once, other), id)
        }),
{
}

/// A known workspace whose dismissal is not under way is listed for dismissal once a
/// request for it was confirmed.
pub proof fn a_confirmed_workspace_is_listed(
    s: Seq<WorkspaceState>,
    id: Seq<char>,
    grace: u64,
    now: Moment,
    later: Moment,
)
    requires
        index_of(s, id) is Some,
        !s[index_of(s, id).unwrap()].dismissal.dismissing,
        grace <= BACKDATED_NANOS,
        now.nanos >= i64::MIN + BACKDATED_NANOS,
        later.nanos >= now.nanos,
    ensures
        ids_where(
            edited(s, id, |w: WorkspaceState| requested(w, now)),
            |w: WorkspaceState| is_ready(w, grace, later),
            s.len() as int,
        ).contains(id),
{
    let i = index_of(s, id).unwrap();
    let after = edited(s, id, |w: WorkspaceState| requested(w, now));
    lemma_last_index(s, id, s.len() as int);
    a_confirmed_request_is_ready(s[i], grace, now, later);
    every_chosen_workspace_is_listed(
        after,
        |w: WorkspaceState| is_ready(w, grace, later),
        s.len() as int,
        i,
    );
}

} // verus!
