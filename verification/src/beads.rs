//! Refreshing the Beads rows of workspaces between full refreshes.
use crate::app::{
    highlighted, highlighted_surface_id, inserting, is_inserting, only_workspaces, App,
};
use crate::assoc::Assoc;
use crate::dismissal::ids_where;
use crate::tasks::{
    beads_items_for_view, beads_rows, items_equal_for_projection, BeadIssue, RepoBeadsView,
    WorkspaceBeadsView,
};
use crate::text::{lemma_views_push, opt_view, same, views};
use crate::trajectory::{
    replaced_rows_are_found, rows_named, with_section, ItemView, SECTION_GOALS, SECTION_MISSION,
};
use crate::workspace::WorkspaceState;
use vstd::prelude::*;

verus! {

// ---------------------------------------------------------------------------
// Copies
// ---------------------------------------------------------------------------

impl Clone for BeadIssue {
    fn clone(&self) -> (r: Self)
        ensures
            r == *self,
    {
        BeadIssue {
            id: self.id.clone(),
            title: self.title.clone(),
            status: self.status.clone(),
            priority: self.priority,
            closed: self.closed,
        }
    }
}

/// `b` says what `a` says.
pub open spec fn same_repo(a: RepoBeadsView, b: RepoBeadsView) -> bool {
    a.repo_path == b.repo_path && a.source == b.source && a.issues@ == b.issues@
}

impl Clone for RepoBeadsView {
    fn clone(&self) -> (r: Self)
        ensures
            same_repo(*self, r),
    {
        let mut issues: Vec<BeadIssue> = Vec::new();
        let mut i: usize = 0;
        while i < self.issues.len()
            invariant
                i <= self.issues@.len(),
                issues@ =~= self.issues@.take(i as int),
            decreases self.issues@.len() - i,
        {
            issues.push(self.issues[i].clone());
            i += 1;
        }
        assert(issues@ =~= self.issues@);
        RepoBeadsView { repo_path: self.repo_path.clone(), source: self.source, issues }
    }
}

/// `b` says what `a` says.
pub open spec fn same_beads(a: WorkspaceBeadsView, b: WorkspaceBeadsView) -> bool {
    &&& a.repos@.len() == b.repos@.len()
    &&& forall|i: int| 0 <= i < a.repos@.len() ==> same_repo(a.repos@[i], #[trigger] b.repos@[i])
    &&& a.repo_by_surface_ref.entries@ == b.repo_by_surface_ref.entries@
}

/// A copy of a table of texts.
pub fn clone_table(t: &Assoc<String>) -> (r: Assoc<String>)
    ensures
        r.entries@ == t.entries@,
{
    let mut entries: Vec<(String, String)> = Vec::new();
    let mut i: usize = 0;
    while i < t.entries.len()
        invariant
            i <= t.entries@.len(),
            entries@ =~= t.entries@.take(i as int),
        decreases t.entries@.len() - i,
    {
        entries.push((t.entries[i].0.clone(), t.entries[i].1.clone()));
        i += 1;
    }
    assert(entries@ =~= t.entries@);
    Assoc { entries }
}

impl Clone for WorkspaceBeadsView {
    fn clone(&self) -> (r: Self)
        ensures
            same_beads(*self, r),
    {
        let mut repos: Vec<RepoBeadsView> = Vec::new();
        let mut i: usize = 0;
        while i < self.repos.len()
            invariant
                i <= self.repos@.len(),
                repos@.len() == i,
                forall|k: int| 0 <= k < i ==> same_repo(self.repos@[k], #[trigger] repos@[k]),
            decreases self.repos@.len() - i,
        {
            repos.push(self.repos[i].clone());
            i += 1;
        }
        WorkspaceBeadsView { repos, repo_by_surface_ref: clone_table(&self.repo_by_surface_ref) }
    }
}

// ---------------------------------------------------------------------------
// Targets
// ---------------------------------------------------------------------------

/// A workspace whose Beads rows can be refreshed, and where they come from.
#[derive(Debug)]
pub struct BeadsRefreshTarget {
    pub generation: u64,
    pub workspace_id: String,
    pub repo_roots: Vec<String>,
    pub repo_by_surface_ref: Assoc<String>,
}

/// The rows of workspaces, read after the refresh with the given number.
#[derive(Debug)]
pub struct BeadsRefreshSnapshot {
    pub generation: u64,
    pub beads_by_ws_id: Assoc<WorkspaceBeadsView>,
}

/// What a target says.
#[verifier::ext_equal]
pub struct TargetView {
    pub generation: u64,
    pub workspace_id: Seq<char>,
    pub repo_roots: Seq<Seq<char>>,
    pub repo_by_surface_ref: Seq<(String, String)>,
}

impl View for BeadsRefreshTarget {
    type V = TargetView;

    open spec fn view(&self) -> TargetView {
        TargetView {
            generation: self.generation,
            workspace_id: self.workspace_id@,
            repo_roots: views(self.repo_roots@),
            repo_by_surface_ref: self.repo_by_surface_ref.entries@,
        }
    }
}

/// What each of the targets says.
pub open spec fn target_views(s: Seq<BeadsRefreshTarget>) -> Seq<TargetView> {
    s.map_values(|t: BeadsRefreshTarget| t@)
}

/// The paths of repositories.
pub open spec fn repo_paths(repos: Seq<RepoBeadsView>) -> Seq<Seq<char>> {
    repos.map_values(|r: RepoBeadsView| r.repo_path@)
}

/// The targets among the first `n` workspaces: those that show Beads rows.
pub open spec fn targets_of(s: Seq<WorkspaceState>, generation: u64, n: int) -> Seq<TargetView>
    decreases n,
{
    if n <= 0 {
        Seq::empty()
    } else {
        let before = targets_of(s, generation, n - 1);
        match s[n - 1].beads {
            Some(b) => before.push(
                TargetView {
                    generation,
                    workspace_id: s[n - 1].workspace.uuid@,
                    repo_roots: repo_paths(b.repos@),
                    repo_by_surface_ref: b.repo_by_surface_ref.entries@,
                },
            ),
            None => before,
        }
    }
}

fn paths_of(repos: &Vec<RepoBeadsView>) -> (r: Vec<String>)
    ensures
        views(r@) == repo_paths(repos@),
{
    let mut out: Vec<String> = Vec::new();
    let mut i: usize = 0;
    while i < repos.len()
        invariant
            i <= repos@.len(),
            views(out@) =~= repo_paths(repos@).take(i as int),
        decreases repos@.len() - i,
    {
        let p = repos[i].repo_path.clone();
        proof {
            lemma_views_push(out@, p);
        }
        out.push(p);
        i += 1;
    }
    assert(views(out@) =~= repo_paths(repos@));
    out
}

// ---------------------------------------------------------------------------
// Gathering
// ---------------------------------------------------------------------------

/// The positions of those among the first `n` paths that occur for the first time
/// and that have rows.
pub open spec fn loaded_roots(
    roots: Seq<Seq<char>>,
    loaded: Assoc<RepoBeadsView>,
    n: int,
) -> Seq<int>
    decreases n,
{
    if n <= 0 {
        Seq::empty()
    } else if loaded.has_key(roots[n - 1]) && !roots.take(n - 1).contains(roots[n - 1]) {
        loaded_roots(roots, loaded, n - 1).push(n - 1)
    } else {
        loaded_roots(roots, loaded, n - 1)
    }
}

/// `repos` are the rows of the given paths, each path once, in order.
pub open spec fn are_loaded(
    roots: Seq<Seq<char>>,
    loaded: Assoc<RepoBeadsView>,
    n: int,
    repos: Seq<RepoBeadsView>,
) -> bool {
    let at = loaded_roots(roots, loaded, n);
    &&& repos.len() == at.len()
    &&& forall|k: int|
        0 <= k < repos.len() ==> same_repo(
            loaded.lookup(roots[at[k]]).unwrap(),
            #[trigger] repos[k],
        )
}

/// The last of the first `n` targets that names the workspace and has rows.
pub open spec fn last_target(
    targets: Seq<BeadsRefreshTarget>,
    loaded: Assoc<RepoBeadsView>,
    id: Seq<char>,
    n: int,
) -> Option<int>
    decreases n,
{
    if n <= 0 {
        None
    } else if targets[n - 1].workspace_id@ == id && loaded_roots(
        views(targets[n - 1].repo_roots@),
        loaded,
        targets[n - 1].repo_roots@.len() as int,
    ).len() > 0 {
        Some(n - 1)
    } else {
        last_target(targets, loaded, id, n - 1)
    }
}

fn occurs_before(roots: &Vec<String>, n: usize) -> (r: bool)
    requires
        n < roots@.len(),
    ensures
        r == views(roots@).take(n as int).contains(views(roots@)[n as int]),
{
    let ghost before = views(roots@).take(n as int);
    let mut i: usize = 0;
    while i < n
        invariant
            i <= n < roots@.len(),
            before == views(roots@).take(n as int),
            forall|k: int| 0 <= k < i ==> before[k] != views(roots@)[n as int],
        decreases n - i,
    {
        assert(before[i as int] == roots@[i as int]@);
        if same(roots[i].as_str(), roots[n].as_str()) {
            assert(before.contains(views(roots@)[n as int]));
            return true;
        }
        i += 1;
    }
    false
}

fn collect_repos(roots: &Vec<String>, loaded: &Assoc<RepoBeadsView>) -> (r: Vec<RepoBeadsView>)
    ensures
        are_loaded(views(roots@), *loaded, roots@.len() as int, r@),
{
    let ghost all = views(roots@);
    let mut repos: Vec<RepoBeadsView> = Vec::new();
    let mut i: usize = 0;
    while i < roots.len()
        invariant
            i <= roots@.len(),
            all == views(roots@),
            are_loaded(all, *loaded, i as int, repos@),
        decreases roots@.len() - i,
    {
        assert(all[i as int] == roots@[i as int]@);
        if !occurs_before(roots, i) {
            if let Some(view) = loaded.get(roots[i].as_str()) {
                repos.push(view.clone());
            }
        }
        i += 1;
    }
    repos
}

/// The rows of the targets' workspaces. `loaded` holds the rows of each repository
/// that has a store.
pub fn gather_beads_refresh_snapshot(
    targets: Vec<BeadsRefreshTarget>,
    loaded: &Assoc<RepoBeadsView>,
) -> (r: BeadsRefreshSnapshot)
    ensures
        r.generation == (if targets@.len() > 0 {
            targets@[0].generation
        } else {
            0
        }),
        r.beads_by_ws_id.well_formed(),
        forall|id: Seq<char>|
            match last_target(targets@, *loaded, id, targets@.len() as int) {
                Some(k) => #[trigger] r.beads_by_ws_id.lookup(id) is Some && ({
                    let t = targets@[k];
                    let b = r.beads_by_ws_id.lookup(id).unwrap();
                    &&& are_loaded(
                        views(t.repo_roots@),
                        *loaded,
                        t.repo_roots@.len() as int,
                        b.repos@,
                    )
                    &&& b.repo_by_surface_ref.entries@ == t.repo_by_surface_ref.entries@
                }),
                None => r.beads_by_ws_id.lookup(id) is None,
            },
{
    let generation: u64 = if targets.len() > 0 {
        targets[0].generation
    } else {
        0
    };
    let mut map: Assoc<WorkspaceBeadsView> = Assoc::new();
    let mut i: usize = 0;
    while i < targets.len()
        invariant
            i <= targets@.len(),
            map.well_formed(),
            forall|id: Seq<char>|
                match last_target(targets@, *loaded, id, i as int) {
                    Some(k) => #[trigger] map.lookup(id) is Some && ({
                        let t = targets@[k];
                        let b = map.lookup(id).unwrap();
                        &&& are_loaded(
                            views(t.repo_roots@),
                            *loaded,
                            t.repo_roots@.len() as int,
                            b.repos@,
                        )
                        &&& b.repo_by_surface_ref.entries@ == t.repo_by_surface_ref.entries@
                    }),
                    None => map.lookup(id) is None,
                },
        decreases targets@.len() - i,
    {
        let repos = collect_repos(&targets[i].repo_roots, loaded);
        let ghost before = map;
        if repos.len() > 0 {
            map.insert(
                targets[i].workspace_id.clone(),
                WorkspaceBeadsView {
                    repos,
                    repo_by_surface_ref: clone_table(&targets[i].repo_by_surface_ref),
                },
            );
        }
        assert forall|id: Seq<char>| true implies match last_target(
            targets@,
            *loaded,
            id,
            i + 1,
        ) {
            Some(k) => #[trigger] map.lookup(id) is Some && ({
                let t = targets@[k];
                let b = map.lookup(id).unwrap();
                &&& are_loaded(views(t.repo_roots@), *loaded, t.repo_roots@.len() as int, b.repos@)
                &&& b.repo_by_surface_ref.entries@ == t.repo_by_surface_ref.entries@
            }),
            None => map.lookup(id) is None,
        } by {
            if targets@[i as int].workspace_id@ != id || repos@.len() == 0 {
                assert(before.lookup(id) == map.lookup(id));
            }
        }
        i += 1;
    }
    BeadsRefreshSnapshot { generation, beads_by_ws_id: map }
}

// ---------------------------------------------------------------------------
// Applying
// ---------------------------------------------------------------------------

/// The rows that fresh Beads data gives a workspace.
pub open spec fn fresh_rows(w: WorkspaceState, b: WorkspaceBeadsView) -> Seq<ItemView> {
    beads_rows(
        b.repos@,
        match highlighted(w) {
            Some(id) => opt_view(b.repo_by_surface_ref.lookup(id)),
            None => None,
        },
    )
}

/// Fresh data changes the workspace's document: it has one that the user is not
/// busy with, whose rows differ.
pub open spec fn rows_change(w: WorkspaceState, b: Option<WorkspaceBeadsView>) -> bool {
    b is Some && !inserting(w) && w.peek_state is None && w.trajectory is Some && rows_named(
        w.trajectory.unwrap()@,
        SECTION_GOALS@,
    ) != fresh_rows(w, b.unwrap())
}

/// Workspace `r` after `w` took fresh data.
pub open spec fn took_beads(
    w: WorkspaceState,
    b: Option<WorkspaceBeadsView>,
    r: WorkspaceState,
) -> bool {
    match b {
        None => r == w,
        Some(b) => {
            &&& r == (WorkspaceState { beads: r.beads, trajectory: r.trajectory, ..w })
            &&& r.beads is Some
            &&& same_beads(b, r.beads.unwrap())
            &&& if rows_change(w, Some(b)) {
                r.trajectory is Some && r.trajectory.unwrap()@ == with_section(
                    w.trajectory.unwrap()@,
                    SECTION_GOALS@,
                    fresh_rows(w, b),
                )
            } else {
                r.trajectory == w.trajectory
            }
        },
    }
}

fn take_beads(ws: &mut WorkspaceState, beads: &WorkspaceBeadsView) -> (r: bool)
    ensures
        r == rows_change(*old(ws), Some(*beads)),
        took_beads(*old(ws), Some(*beads), *final(ws)),
{
    let busy = is_inserting(ws) || ws.peek_state.is_some();
    let repo = match highlighted_surface_id(ws) {
        Some(id) => match beads.repo_by_surface_ref.get(id.as_str()) {
            Some(repo) => Some(repo.as_str()),
            None => None,
        },
        None => None,
    };
    ws.beads = Some(beads.clone());
    if busy {
        return false;
    }
    let items = beads_items_for_view(beads, repo);
    match &mut ws.trajectory {
        Some(doc) => {
            let existing = doc.rows(SECTION_GOALS);
            if items_equal_for_projection(&existing, &items) {
                return false;
            }
            doc.replace_section_items(SECTION_GOALS, items);
            true
        },
        None => false,
    }
}

impl App {
    /// The workspaces whose Beads rows can be refreshed.
    pub fn beads_refresh_targets(&self) -> (r: Vec<BeadsRefreshTarget>)
        ensures
            target_views(r@) == targets_of(
                self.workspaces@,
                self.beads_generation,
                self.workspaces@.len() as int,
            ),
    {
        let mut out: Vec<BeadsRefreshTarget> = Vec::new();
        let mut i: usize = 0;
        assert(target_views(out@) =~= Seq::<TargetView>::empty());
        while i < self.workspaces.len()
            invariant
                i <= self.workspaces@.len(),
                target_views(out@) == targets_of(
                    self.workspaces@,
                    self.beads_generation,
                    i as int,
                ),
            decreases self.workspaces@.len() - i,
        {
            if let Some(beads) = &self.workspaces[i].beads {
                let t = BeadsRefreshTarget {
                    generation: self.beads_generation,
                    workspace_id: self.workspaces[i].workspace.uuid.clone(),
                    repo_roots: paths_of(&beads.repos),
                    repo_by_surface_ref: clone_table(&beads.repo_by_surface_ref),
                };
                let ghost before = out@;
                out.push(t);
                assert(target_views(out@) =~= target_views(before).push(t@));
            }
            i += 1;
        }
        out
    }

    /// Takes fresh Beads data, unless a full refresh has come in between. Returns the
    /// workspaces whose documents changed and are to be saved.
    pub fn apply_beads_refresh_snapshot(&mut self, snap: &BeadsRefreshSnapshot) -> (r: Vec<String>)
        ensures
            old(self).well_formed() ==> final(self).well_formed(),
            only_workspaces(*old(self), *final(self)),
            final(self).workspaces@.len() == old(self).workspaces@.len(),
            snap.generation != old(self).beads_generation ==> final(self).workspaces@ == old(
                self,
            ).workspaces@ && r@.len() == 0,
            snap.generation == old(self).beads_generation ==> {
                &&& forall|i: int|
                    0 <= i < old(self).workspaces@.len() ==> took_beads(
                        old(self).workspaces@[i],
                        snap.beads_by_ws_id.lookup(old(self).workspaces@[i].workspace.uuid@),
                        #[trigger] final(self).workspaces@[i],
                    )
                &&& views(r@) == ids_where(
                    old(self).workspaces@,
                    |w: WorkspaceState|
                        rows_change(w, snap.beads_by_ws_id.lookup(w.workspace.uuid@)),
                    old(self).workspaces@.len() as int,
                )
            },
    {
        let mut out: Vec<String> = Vec::new();
        assert(views(out@) =~= Seq::<Seq<char>>::empty());
        if snap.generation != self.beads_generation {
            return out;
        }
        let ghost before = *self;
        let ghost s = before.workspaces@;
        let ghost p = |w: WorkspaceState|
            rows_change(w, snap.beads_by_ws_id.lookup(w.workspace.uuid@));
        let n: usize = self.workspaces.len();
        let mut i: usize = 0;
        while i < n
            invariant
                i <= n,
                n == s.len(),
                n == self.workspaces@.len(),
                s == before.workspaces@,
                only_workspaces(before, *self),
                p == (|w: WorkspaceState|
                    rows_change(w, snap.beads_by_ws_id.lookup(w.workspace.uuid@))),
                forall|k: int|
                    0 <= k < i ==> took_beads(
                        s[k],
                        snap.beads_by_ws_id.lookup(s[k].workspace.uuid@),
                        #[trigger] self.workspaces@[k],
                    ),
                forall|k: int| i <= k < n ==> (#[trigger] self.workspaces@[k]) == s[k],
                views(out@) == ids_where(s, p, i as int),
            decreases n - i,
        {
            assert(self.workspaces@[i as int] == s[i as int]);
            if let Some(beads) = snap.beads_by_ws_id.get(
                self.workspaces[i].workspace.uuid.as_str(),
            ) {
                if take_beads(&mut self.workspaces[i], beads) {
                    let id = self.workspaces[i].workspace.uuid.clone();
                    proof {
                        lemma_views_push(out@, id);
                    }
                    out.push(id);
                }
            }
            i += 1;
        }
        out
    }
}

/// After fresh data was taken, the task section shows it, or the user is busy with
/// the document.
pub proof fn fresh_data_is_shown(w: WorkspaceState, b: WorkspaceBeadsView, r: WorkspaceState)
    requires
        took_beads(w, Some(b), r),
        w.trajectory is Some,
        !inserting(w),
        w.peek_state is None,
    ensures
        rows_named(r.trajectory.unwrap()@, SECTION_GOALS@) == fresh_rows(w, b),
        r.trajectory.unwrap()@.mission_history == w.trajectory.unwrap()@.mission_history,
{
    replaced_rows_are_found(
        w.trajectory.unwrap()@,
        SECTION_GOALS@,
        fresh_rows(w, b),
        SECTION_MISSION@,
    );
}

/// A user who is writing keeps the document exactly as it is.
pub proof fn fresh_data_waits_for_the_writer(
    w: WorkspaceState,
    b: WorkspaceBeadsView,
    r: WorkspaceState,
)
    requires
        took_beads(w, Some(b), r),
        inserting(w) || w.peek_state is Some,
    ensures
        r.trajectory == w.trajectory,
{
}

} // verus!
