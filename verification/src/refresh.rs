//! A full refresh: rebuilding the workspaces from what was gathered, and seeding
//! missions from their descriptions.
use crate::app::{editing, index_of, is_editing, lemma_last_index, useful, workspace_notes, App};
use crate::assoc::Assoc;
use crate::dismissal::ids_where;
use crate::intent::ConversationIntent;
use crate::mesh::{retain_remote_surfaces_as_stale, retained, RemoteSurfaceState};
use crate::peek_view::same_peek;
use crate::regen::{has_no_mission, no_mission};
use crate::screen::ScreenInsights;
use crate::surface::{clone_surfaces, SurfaceInfo};
use crate::tasks::{
    retain_last_good_linear, with_last_good, LinearView, WorkspaceBeadsView, WorkspaceLinearView,
};
use crate::text::{
    chars_of, clone_opt, deep, lemma_views_push, lines, lines_of, string_from, trim, trim_chars,
    views,
};
use crate::trajectory::{
    item_views, replaced_rows_are_found, rows_named, with_section, DocView, Item, ItemView,
    TrajectoryDoc, SECTION_MISSION,
};
use crate::workspace::{
    same_summary, DismissalState, RegenSchedulerState, SessionFile, Workspace, WorkspaceState,
};
use vstd::prelude::*;

verus! {

/// What one refresh gathered.
pub struct RefreshSnapshot {
    pub workspaces: Vec<Workspace>,
    /// Surfaces by workspace reference.
    pub surfaces_map: Assoc<Vec<SurfaceInfo>>,
    pub sessions_by_ws_id: Assoc<SessionFile>,
    pub beads_by_ws_id: Assoc<WorkspaceBeadsView>,
    pub linear_by_ws_id: Assoc<WorkspaceLinearView>,
    /// Intents by workspace and surface.
    pub surface_intents_by_ws_id: Assoc<Assoc<ConversationIntent>>,
    /// The remote sessions of each workspace, when the mesh could be read.
    pub remote_mesh: Option<Assoc<Assoc<RemoteSurfaceState>>>,
    pub mesh_warning: Option<String>,
}

/// What was read from disk for a refresh.
pub struct RefreshFiles {
    /// Documents by workspace.
    pub trajectories: Assoc<TrajectoryDoc>,
    /// Notes by workspace name.
    pub notes: Assoc<String>,
}

/// What a refresh leaves to do: documents to save, and the intents for the rows of
/// surfaces.
pub struct RefreshOutcome {
    pub to_save: Vec<String>,
    pub surface_intents: Assoc<Assoc<ConversationIntent>>,
}

impl RefreshSnapshot {
    /// No table holds a key twice.
    pub open spec fn well_formed(self) -> bool {
        &&& self.sessions_by_ws_id.well_formed()
        &&& self.beads_by_ws_id.well_formed()
        &&& self.linear_by_ws_id.well_formed()
        &&& match self.remote_mesh {
            Some(m) => forall|k: Seq<char>|
                (#[trigger] m.lookup(k)) is Some ==> m.lookup(k).unwrap().well_formed(),
            None => true,
        }
    }
}

// ---------------------------------------------------------------------------
// Rebuilding a workspace
// ---------------------------------------------------------------------------

/// How many of the first `n` workspaces have the identity.
pub open spec fn occurrences(s: Seq<Workspace>, uuid: Seq<char>, n: int) -> int
    decreases n,
{
    if n <= 0 {
        0
    } else {
        occurrences(s, uuid, n - 1) + (if s[n - 1].uuid@ == uuid {
            1int
        } else {
            0int
        })
    }
}

/// What a table still holds for a workspace that `n` others with its identity come
/// before: each entry is given once.
pub open spec fn given<V>(t: Assoc<V>, uuid: Seq<char>, n: int) -> Option<V> {
    if n <= 0 {
        t.lookup(uuid)
    } else {
        None
    }
}

/// The Linear rows of the `n`-th workspace with the identity.
pub open spec fn given_linear(snap: RefreshSnapshot, uuid: Seq<char>, n: int) -> Option<
    WorkspaceLinearView,
> {
    given(snap.linear_by_ws_id, uuid, n)
}

/// The Beads rows of the `n`-th workspace with the identity. Linear rows take
/// precedence, and leave the Beads rows to the next.
pub open spec fn given_beads(snap: RefreshSnapshot, uuid: Seq<char>, n: int) -> Option<
    WorkspaceBeadsView,
> {
    if given_linear(snap, uuid, n) is Some {
        None
    } else if snap.linear_by_ws_id.has_key(uuid) {
        given(snap.beads_by_ws_id, uuid, n - 1)
    } else {
        given(snap.beads_by_ws_id, uuid, n)
    }
}

/// The user is busy with the document: writing in it, waiting for a mission to
/// change places, or looking at a surface.
pub open spec fn user_owned(old: Option<WorkspaceState>) -> bool {
    match old {
        Some(w) => editing(w) || w.peek_state is Some,
        None => false,
    }
}

/// What a document says, if there is one.
pub open spec fn doc_view(d: Option<TrajectoryDoc>) -> Option<DocView> {
    match d {
        Some(d) => Some(d@),
        None => None,
    }
}

/// What Linear rows say, if there are any.
pub open spec fn linear_view(v: Option<WorkspaceLinearView>) -> Option<LinearView> {
    match v {
        Some(v) => Some(v@),
        None => None,
    }
}

/// What a workspace keeps through a refresh; a new one starts empty.
pub open spec fn keeps(old: Option<WorkspaceState>, r: WorkspaceState) -> bool {
    match old {
        Some(o) => {
            &&& r.tool_call_count == o.tool_call_count
            &&& r.screen_preview == o.screen_preview
            &&& r.screen_insights == o.screen_insights
            &&& r.mux_status == o.mux_status
            &&& match o.summary {
                Some(s) => r.summary is Some && same_summary(s, r.summary.unwrap()),
                None => r.summary is None,
            }
            &&& r.edit_state == o.edit_state
            &&& r.missions_pending == o.missions_pending
            &&& match o.peek_state {
                Some(p) => r.peek_state is Some && same_peek(p, r.peek_state.unwrap()),
                None => r.peek_state is None,
            }
            &&& r.regen == o.regen
            &&& r.dismissal == o.dismissal
        },
        None => {
            &&& r.tool_call_count == 0
            &&& r.screen_preview is None
            &&& r.screen_insights.is_blank()
            &&& r.mux_status is None
            &&& r.summary is None
            &&& r.edit_state is None
            &&& !r.missions_pending
            &&& r.peek_state is None
            &&& r.regen == (RegenSchedulerState {
                last_regen_at: None,
                events_since_last_regen: 0,
                regen_in_flight: false,
            })
            &&& r.dismissal == (DismissalState {
                open_surfaces: 0,
                grace_started_at: None,
                dismissing: false,
            })
        },
    }
}

/// The remote sessions of a workspace: what the mesh says, or, when it could not be
/// read, what was known before, as stale.
pub open spec fn remotes_of(
    snap: RefreshSnapshot,
    old: Option<WorkspaceState>,
    uuid: Seq<char>,
    surfaces: Seq<SurfaceInfo>,
) -> Seq<(String, RemoteSurfaceState)> {
    match snap.remote_mesh {
        Some(m) => match m.lookup(uuid) {
            Some(t) => t.entries@,
            None => Seq::empty(),
        },
        None => match old {
            Some(o) => retained(
                o.remote_surfaces.entries@,
                surfaces,
                o.remote_surfaces.entries@.len() as int,
            ),
            None => Seq::empty(),
        },
    }
}

/// Workspace `r` is `ws` rebuilt; `n` others with its identity come before it, and
/// `old` is what was known of it.
pub open spec fn rebuilt(
    snap: RefreshSnapshot,
    files: RefreshFiles,
    old: Option<WorkspaceState>,
    ws: Workspace,
    n: int,
    r: WorkspaceState,
) -> bool {
    let uuid = ws.uuid@;
    &&& r.workspace == ws
    &&& r.session == given(snap.sessions_by_ws_id, uuid, n)
    &&& linear_view(r.linear) == (match given_linear(snap, uuid, n) {
        Some(v) => Some(
            with_last_good(
                v@,
                match old {
                    Some(o) => linear_view(o.linear),
                    None => None,
                },
            ),
        ),
        None => None,
    })
    &&& r.beads == given_beads(snap, uuid, n)
    &&& r.surfaces@ == (match snap.surfaces_map.lookup(ws.ref_id@) {
        Some(s) => s@,
        None => Seq::empty(),
    })
    &&& r.remote_surfaces.well_formed()
    &&& r.remote_surfaces.entries@ == remotes_of(snap, old, uuid, r.surfaces@)
    &&& keeps(old, r)
    &&& doc_view(r.trajectory) == (if user_owned(old) {
        doc_view(old.unwrap().trajectory)
    } else {
        doc_view(files.trajectories.lookup(uuid))
    })
    &&& r.notes == useful(files.notes.lookup(ws.name@))
    &&& r.classification is None
    &&& !r.loading
    &&& !r.summarizing
    &&& r.linear_open_pending is None
    &&& !r.peek_yield_pending
    &&& r.dispatch_modal is None
    &&& r.dispatch_pending_outcome is None
    &&& r.dispatch_error is None
}

/// A copy of a table of remote sessions.
pub fn clone_remotes(t: &Assoc<RemoteSurfaceState>) -> (r: Assoc<RemoteSurfaceState>)
    ensures
        r.entries@ == t.entries@,
{
    let mut entries: Vec<(String, RemoteSurfaceState)> = Vec::new();
    let mut i: usize = 0;
    while i < t.entries.len()
        invariant
            i <= t.entries@.len(),
            entries@ =~= t.entries@.take(i as int),
        decreases t.entries@.len() - i,
    {
        entries.push((t.entries[i].0.clone(), t.entries[i].1.clone()));
        i += 1;
    }
    assert(entries@ =~= t.entries@);
    Assoc { entries }
}

fn clone_doc(d: &Option<TrajectoryDoc>) -> (r: Option<TrajectoryDoc>)
    ensures
        doc_view(r) == doc_view(*d),
{
    match d {
        Some(d) => Some(d.clone()),
        None => None,
    }
}

fn resolve_remotes(
    mesh: &Option<Assoc<Assoc<RemoteSurfaceState>>>,
    old: Option<&WorkspaceState>,
    uuid: &str,
    surfaces: &Vec<SurfaceInfo>,
) -> (r: Assoc<RemoteSurfaceState>)
    requires
        old is Some ==> old.unwrap().remote_surfaces.well_formed(),
        match *mesh {
            Some(m) => forall|k: Seq<char>|
                (#[trigger] m.lookup(k)) is Some ==> m.lookup(k).unwrap().well_formed(),
            None => true,
        },
    ensures
        r.well_formed(),
        r.entries@ == (match *mesh {
            Some(m) => match m.lookup(uuid@) {
                Some(t) => t.entries@,
                None => Seq::empty(),
            },
            None => match old {
                Some(o) => retained(
                    o.remote_surfaces.entries@,
                    surfaces@,
                    o.remote_surfaces.entries@.len() as int,
                ),
                None => Seq::empty(),
            },
        }),
{
    match mesh {
        Some(m) => match m.get(uuid) {
            Some(t) => clone_remotes(t),
            None => {
                let r: Assoc<RemoteSurfaceState> = Assoc::new();
                assert(r.entries@ =~= Seq::empty());
                r
            },
        },
        None => match old {
            Some(o) => retain_remote_surfaces_as_stale(&o.remote_surfaces, surfaces),
            None => {
                let r: Assoc<RemoteSurfaceState> = Assoc::new();
                assert(r.entries@ =~= Seq::empty());
                r
            },
        },
    }
}

/// What one workspace is rebuilt from.
struct Parts {
    session: Option<SessionFile>,
    linear: Option<WorkspaceLinearView>,
    beads: Option<WorkspaceBeadsView>,
    surfaces: Vec<SurfaceInfo>,
    remote_surfaces: Assoc<RemoteSurfaceState>,
    trajectory: Option<TrajectoryDoc>,
    notes: Option<String>,
}

fn assemble(ws: Workspace, old: Option<&WorkspaceState>, parts: Parts) -> (r: WorkspaceState)
    ensures
        keeps(
            (match old {
                Some(o) => Some(*o),
                None => None,
            }),
            r,
        ),
        r.workspace == ws,
        r.session == parts.session,
        r.linear == parts.linear,
        r.beads == parts.beads,
        r.surfaces == parts.surfaces,
        r.remote_surfaces == parts.remote_surfaces,
        r.trajectory == parts.trajectory,
        r.notes == parts.notes,
        r.classification is None,
        !r.loading,
        !r.summarizing,
        r.linear_open_pending is None,
        !r.peek_yield_pending,
        r.dispatch_modal is None,
        r.dispatch_pending_outcome is None,
        r.dispatch_error is None,
{
    let mut r = WorkspaceState {
        workspace: ws,
        session: parts.session,
        surfaces: parts.surfaces,
        remote_surfaces: parts.remote_surfaces,
        screen_preview: None,
        screen_insights: ScreenInsights::default(),
        tool_call_count: 0,
        notes: parts.notes,
        mux_status: None,
        classification: None,
        loading: false,
        summary: None,
        beads: parts.beads,
        linear: parts.linear,
        linear_open_pending: None,
        summarizing: false,
        trajectory: parts.trajectory,
        edit_state: None,
        missions_pending: false,
        peek_state: None,
        peek_yield_pending: false,
        regen: RegenSchedulerState::default(),
        dismissal: DismissalState::default(),
        dispatch_modal: None,
        dispatch_pending_outcome: None,
        dispatch_error: None,
    };
    if let Some(o) = old {
        r.tool_call_count = o.tool_call_count;
        r.screen_preview = clone_opt(&o.screen_preview);
        r.screen_insights = o.screen_insights.clone();
        r.mux_status = match &o.mux_status {
            Some(m) => Some(m.clone()),
            None => None,
        };
        r.summary = match &o.summary {
            Some(s) => Some(s.clone()),
            None => None,
        };
        r.edit_state = match &o.edit_state {
            Some(s) => Some(s.clone()),
            None => None,
        };
        r.missions_pending = o.missions_pending;
        r.peek_state = match &o.peek_state {
            Some(p) => Some(p.clone()),
            None => None,
        };
        r.regen = o.regen;
        r.dismissal = o.dismissal;
    }
    r
}

// ---------------------------------------------------------------------------
// Seeding missions
// ---------------------------------------------------------------------------

/// The trimmed lines among the first `n` that are not blank, as open missions.
pub open spec fn mission_rows(ls: Seq<Seq<char>>, n: int) -> Seq<ItemView>
    decreases n,
{
    if n <= 0 {
        Seq::empty()
    } else if trim(ls[n - 1]).len() > 0 {
        mission_rows(ls, n - 1).push(
            ItemView {
                text: trim(ls[n - 1]),
                is_checkbox: true,
                checked: Some(false),
                surface_id: None,
            },
        )
    } else {
        mission_rows(ls, n - 1)
    }
}

/// The missions that a description names.
pub open spec fn described_missions(description: Option<String>) -> Seq<ItemView> {
    match description {
        Some(d) => mission_rows(lines(d@), lines(d@).len() as int),
        None => Seq::empty(),
    }
}

/// A workspace takes its missions from its description: it has a document that the
/// user is not busy with and that never had a mission, and the description names
/// some.
pub open spec fn is_seeded(w: WorkspaceState) -> bool {
    !user_owned(Some(w)) && w.trajectory is Some && no_mission(w.trajectory.unwrap()@)
        && described_missions(w.workspace.description).len() > 0
}

/// Workspace `r` is `w` after seeding.
pub open spec fn seeded(w: WorkspaceState, r: WorkspaceState) -> bool {
    if is_seeded(w) {
        &&& r == (WorkspaceState { trajectory: r.trajectory, ..w })
        &&& doc_view(r.trajectory) == Some(
            with_section(
                w.trajectory.unwrap()@,
                SECTION_MISSION@,
                described_missions(w.workspace.description),
            ),
        )
    } else {
        r == w
    }
}

fn missions_from(description: &str) -> (r: Vec<Item>)
    ensures
        item_views(r@) == mission_rows(lines(description@), lines(description@).len() as int),
{
    let ls = lines_of(&chars_of(description));
    let ghost all = lines(description@);
    let mut out: Vec<Item> = Vec::new();
    let mut i: usize = 0;
    assert(item_views(out@) =~= Seq::<ItemView>::empty());
    while i < ls.len()
        invariant
            i <= ls@.len(),
            all == deep(ls@),
            item_views(out@) == mission_rows(all, i as int),
        decreases ls@.len() - i,
    {
        let t = trim_chars(&ls[i]);
        if t.len() > 0 {
            let item = Item {
                text: string_from(&t),
                is_checkbox: true,
                checked: Some(false),
                surface_id: None,
            };
            let ghost before = out@;
            out.push(item);
            assert(item_views(out@) =~= item_views(before).push(item@));
        }
        i += 1;
    }
    out
}

/// Seeds the missions of a workspace from its description. Returns whether its
/// document changed.
pub fn seed_mission(ws: &mut WorkspaceState) -> (r: bool)
    ensures
        r == is_seeded(*old(ws)),
        seeded(*old(ws), *final(ws)),
{
    if is_editing(ws) || ws.peek_state.is_some() {
        return false;
    }
    let rows = match &ws.workspace.description {
        Some(d) => missions_from(d.as_str()),
        None => {
            return false;
        },
    };
    assert(item_views(rows@).len() == rows@.len());
    match &mut ws.trajectory {
        Some(doc) => {
            if rows.len() == 0 || !has_no_mission(doc) {
                return false;
            }
            doc.replace_section_items(SECTION_MISSION, rows);
            true
        },
        None => false,
    }
}

// ---------------------------------------------------------------------------
// The refresh
// ---------------------------------------------------------------------------

/// What was known of the workspace with the given identity.
pub open spec fn known_before(s: Seq<WorkspaceState>, uuid: Seq<char>) -> Option<WorkspaceState> {
    match index_of(s, uuid) {
        Some(i) => Some(s[i]),
        None => None,
    }
}

proof fn lemma_occurrences(s: Seq<Workspace>, uuid: Seq<char>, n: int)
    requires
        0 <= n <= s.len(),
    ensures
        occurrences(s, uuid, n) >= 0,
    decreases n,
{
    if n > 0 {
        lemma_occurrences(s, uuid, n - 1);
    }
}

/// The tables after the first `n` workspaces took from them.
pub open spec fn remains<V>(
    t: Assoc<V>,
    now: Assoc<V>,
    s: Seq<Workspace>,
    n: int,
    spared: Set<Seq<char>>,
) -> bool {
    &&& now.well_formed()
    &&& forall|k: Seq<char>| #[trigger]
        now.lookup(k) == given(
            t,
            k,
            occurrences(s, k, n) - (if spared.contains(k) {
                1int
            } else {
                0int
            }),
        )
}

impl App {
    #[verifier::rlimit(40)]
    fn rebuild_workspaces(
        &self,
        workspaces: Vec<Workspace>,
        surfaces_map: &Assoc<Vec<SurfaceInfo>>,
        sessions: Assoc<SessionFile>,
        beads: Assoc<WorkspaceBeadsView>,
        linear: Assoc<WorkspaceLinearView>,
        mesh: &Option<Assoc<Assoc<RemoteSurfaceState>>>,
        files: &RefreshFiles,
        Ghost(snap): Ghost<RefreshSnapshot>,
    ) -> (r: Vec<WorkspaceState>)
        requires
            snap.well_formed(),
            workspaces == snap.workspaces,
            *surfaces_map == snap.surfaces_map,
            sessions == snap.sessions_by_ws_id,
            beads == snap.beads_by_ws_id,
            linear == snap.linear_by_ws_id,
            *mesh == snap.remote_mesh,
            forall|i: int|
                0 <= i < self.workspaces@.len() ==> (
                #[trigger] self.workspaces@[i]).remote_surfaces.well_formed(),
        ensures
            r@.len() == workspaces@.len(),
            forall|i: int|
                0 <= i < r@.len() ==> rebuilt(
                    snap,
                    *files,
                    known_before(self.workspaces@, workspaces@[i].uuid@),
                    workspaces@[i],
                    occurrences(workspaces@, workspaces@[i].uuid@, i),
                    #[trigger] r@[i],
                ),
    {
        let ghost all = workspaces@;
        let n: usize = workspaces.len();
        let mut sessions = sessions;
        let mut beads = beads;
        let mut linear = linear;
        let ghost lined = Set::new(|k: Seq<char>| snap.linear_by_ws_id.has_key(k));
        let mut rest = workspaces;
        let mut out: Vec<WorkspaceState> = Vec::new();
        let mut i: usize = 0;
        while i < n
            invariant
                i <= n,
                n == all.len(),
                rest@ =~= all.skip(i as int),
                snap.well_formed(),
                *surfaces_map == snap.surfaces_map,
                *mesh == snap.remote_mesh,
                lined == Set::new(|k: Seq<char>| snap.linear_by_ws_id.has_key(k)),
                forall|k: int|
                    0 <= k < self.workspaces@.len() ==> (
                    #[trigger] self.workspaces@[k]).remote_surfaces.well_formed(),
                remains(snap.sessions_by_ws_id, sessions, all, i as int, Set::empty()),
                remains(snap.linear_by_ws_id, linear, all, i as int, Set::empty()),
                remains(snap.beads_by_ws_id, beads, all, i as int, lined),
                out@.len() == i,
                forall|k: int|
                    0 <= k < i ==> rebuilt(
                        snap,
                        *files,
                        known_before(self.workspaces@, all[k].uuid@),
                        all[k],
                        occurrences(all, all[k].uuid@, k),
                        #[trigger] out@[k],
                    ),
            decreases n - i,
        {
            let ws = rest.remove(0);
            assert(ws == all[i as int]);
            let ghost uuid = ws.uuid@;
            let ghost count = occurrences(all, uuid, i as int);
            proof {
                lemma_occurrences(all, uuid, i as int);
                lemma_last_index(self.workspaces@, uuid, self.workspaces@.len() as int);
            }
            let ghost sessions0 = sessions;
            let ghost linear0 = linear;
            let ghost beads0 = beads;
            let old: Option<&WorkspaceState> = match self.workspace_index_for(ws.uuid.as_str()) {
                Some(k) => Some(&self.workspaces[k]),
                None => None,
            };
            let ghost before = known_before(self.workspaces@, uuid);
            assert(before == (match old {
                Some(o) => Some(*o),
                None => None,
            }));
            let session = sessions.remove(ws.uuid.as_str());
            let mut lin = linear.remove(ws.uuid.as_str());
            assert(lin == given_linear(snap, uuid, count));
            if let Some(mut v) = lin {
                let previous = match old {
                    Some(o) => o.linear.as_ref(),
                    None => None,
                };
                retain_last_good_linear(&mut v, previous);
                lin = Some(v);
            }
            let taken = if lin.is_some() {
                None
            } else {
                beads.remove(ws.uuid.as_str())
            };
            assert(taken == given_beads(snap, uuid, count));
            let surfaces = match surfaces_map.get(ws.ref_id.as_str()) {
                Some(s) => clone_surfaces(s),
                None => Vec::new(),
            };
            assert(surfaces@ =~= (match snap.surfaces_map.lookup(ws.ref_id@) {
                Some(s) => s@,
                None => Seq::empty(),
            }));
            let remotes = resolve_remotes(mesh, old, ws.uuid.as_str(), &surfaces);
            let owned = match old {
                Some(o) => is_editing(o) || o.peek_state.is_some(),
                None => false,
            };
            let trajectory = match old {
                Some(o) if owned => clone_doc(&o.trajectory),
                _ => match files.trajectories.get(ws.uuid.as_str()) {
                    Some(d) => Some(d.clone()),
                    None => None,
                },
            };
            let notes = workspace_notes(ws.name.as_str(), &files.notes);
            let r = assemble(
                ws,
                old,
                Parts {
                    session,
                    linear: lin,
                    beads: taken,
                    surfaces,
                    remote_surfaces: remotes,
                    trajectory,
                    notes,
                },
            );
            assert(rebuilt(snap, *files, before, all[i as int], count, r));
            out.push(r);
            proof {
                assert forall|k: Seq<char>| true implies #[trigger] occurrences(all, k, i + 1) == (
                if k == uuid {
                    occurrences(all, k, i as int) + 1
                } else {
                    occurrences(all, k, i as int)
                }) by {}
                assert forall|k: Seq<char>| true implies #[trigger] occurrences(all, k, i as int)
                    >= 0 by {
                    lemma_occurrences(all, k, i as int);
                }
                assert(remains(snap.sessions_by_ws_id, sessions, all, i + 1, Set::empty())) by {
                    assert forall|k: Seq<char>| true implies #[trigger] sessions.lookup(k) == given(
                        snap.sessions_by_ws_id,
                        k,
                        occurrences(all, k, i + 1),
                    ) by {
                        assert(occurrences(all, k, i + 1) >= occurrences(all, k, i as int));
                        assert(k != uuid ==> sessions.lookup(k) == sessions0.lookup(k));
                    }
                }
                assert(remains(snap.linear_by_ws_id, linear, all, i + 1, Set::empty())) by {
                    assert forall|k: Seq<char>| true implies #[trigger] linear.lookup(k) == given(
                        snap.linear_by_ws_id,
                        k,
                        occurrences(all, k, i + 1),
                    ) by {
                        assert(occurrences(all, k, i + 1) >= occurrences(all, k, i as int));
                        assert(k != uuid ==> linear.lookup(k) == linear0.lookup(k));
                    }
                }
                assert(remains(snap.beads_by_ws_id, beads, all, i + 1, lined)) by {
                    assert forall|k: Seq<char>| true implies #[trigger] beads.lookup(k) == given(
                        snap.beads_by_ws_id,
                        k,
                        occurrences(all, k, i + 1) - (if lined.contains(k) {
                            1int
                        } else {
                            0int
                        }),
                    ) by {
                        assert(occurrences(all, k, i + 1) >= occurrences(all, k, i as int));
                        assert(k != uuid ==> beads.lookup(k) == beads0.lookup(k));
                    }
                }
            }
            i += 1;
        }
        out
    }

    /// Takes what a refresh gathered: rebuilds the workspaces and seeds missions.
    pub fn apply_refresh_snapshot(&mut self, snap: RefreshSnapshot, files: &RefreshFiles) -> (r:
        RefreshOutcome)
        requires
            snap.well_formed(),
            old(self).well_formed(),
        ensures
            final(self).well_formed(),
            *final(self) == (App {
                workspaces: final(self).workspaces,
                mesh_warning: snap.mesh_warning,
                beads_generation: (if old(self).beads_generation < u64::MAX {
                    old(self).beads_generation + 1
                } else {
                    0
                }) as u64,
                ..*old(self)
            }),
            r.surface_intents == snap.surface_intents_by_ws_id,
            refreshed(
                snap,
                *files,
                old(self).workspaces@,
                final(self).workspaces@,
                views(r.to_save@),
            ),
    {
        let ghost before = *self;
        let ghost all = snap;
        let RefreshSnapshot {
            workspaces,
            surfaces_map,
            sessions_by_ws_id,
            beads_by_ws_id,
            linear_by_ws_id,
            surface_intents_by_ws_id,
            remote_mesh,
            mesh_warning,
        } = snap;
        let rebuilt_ws = self.rebuild_workspaces(
            workspaces,
            &surfaces_map,
            sessions_by_ws_id,
            beads_by_ws_id,
            linear_by_ws_id,
            &remote_mesh,
            files,
            Ghost(all),
        );
        let ghost middle = rebuilt_ws@;
        self.mesh_warning = mesh_warning;
        self.beads_generation = self.beads_generation.wrapping_add(1);
        self.workspaces = rebuilt_ws;
        let ghost p = |w: WorkspaceState| is_seeded(w);
        let mut to_save: Vec<String> = Vec::new();
        let n: usize = self.workspaces.len();
        let mut i: usize = 0;
        let ghost shell = *self;
        assert(views(to_save@) =~= Seq::<Seq<char>>::empty());
        while i < n
            invariant
                i <= n,
                n == self.workspaces@.len(),
                n == middle.len(),
                *self == (App { workspaces: self.workspaces, ..shell }),
                p == (|w: WorkspaceState| is_seeded(w)),
                forall|k: int| 0 <= k < i ==> seeded(middle[k], #[trigger] self.workspaces@[k]),
                forall|k: int| i <= k < n ==> (#[trigger] self.workspaces@[k]) == middle[k],
                views(to_save@) == ids_where(middle, p, i as int),
            decreases n - i,
        {
            assert(self.workspaces@[i as int] == middle[i as int]);
            if seed_mission(&mut self.workspaces[i]) {
                let id = self.workspaces[i].workspace.uuid.clone();
                proof {
                    lemma_views_push(to_save@, id);
                }
                to_save.push(id);
            }
            i += 1;
        }
        assert(refreshed_via(all, *files, before.workspaces@, middle));
        assert forall|k: int| 0 <= k < n implies (
        #[trigger] self.workspaces@[k]).remote_surfaces.well_formed() by {
            assert(seeded(middle[k], self.workspaces@[k]));
            assert(rebuilt(
                all,
                *files,
                known_before(before.workspaces@, all.workspaces@[k].uuid@),
                all.workspaces@[k],
                occurrences(all.workspaces@, all.workspaces@[k].uuid@, k),
                middle[k],
            ));
        }
        RefreshOutcome { to_save, surface_intents: surface_intents_by_ws_id }
    }
}

/// `middle` are the gathered workspaces, rebuilt.
pub open spec fn refreshed_via(
    snap: RefreshSnapshot,
    files: RefreshFiles,
    old: Seq<WorkspaceState>,
    middle: Seq<WorkspaceState>,
) -> bool {
    &&& middle.len() == snap.workspaces@.len()
    &&& forall|i: int|
        0 <= i < middle.len() ==> rebuilt(
            snap,
            files,
            known_before(old, snap.workspaces@[i].uuid@),
            snap.workspaces@[i],
            occurrences(snap.workspaces@, snap.workspaces@[i].uuid@, i),
            #[trigger] middle[i],
        )
}

/// `new` are the gathered workspaces, in their order, rebuilt and then seeded;
/// `saved` are those whose document the seeding changed.
pub open spec fn refreshed(
    snap: RefreshSnapshot,
    files: RefreshFiles,
    old: Seq<WorkspaceState>,
    new: Seq<WorkspaceState>,
    saved: Seq<Seq<char>>,
) -> bool {
    exists|middle: Seq<WorkspaceState>| #[trigger]
        refreshed_via(snap, files, old, middle) && {
            &&& new.len() == middle.len()
            &&& forall|i: int| 0 <= i < new.len() ==> seeded(middle[i], #[trigger] new[i])
            &&& saved == ids_where(
                middle,
                |w: WorkspaceState| is_seeded(w),
                middle.len() as int,
            )
        }
}

// ---------------------------------------------------------------------------
// Laws
// ---------------------------------------------------------------------------

/// A refresh never touches a document that the user is busy with: neither what is on
/// disk nor the description replaces it.
pub proof fn a_refresh_spares_the_users_document(
    snap: RefreshSnapshot,
    files: RefreshFiles,
    old: WorkspaceState,
    ws: Workspace,
    n: int,
    middle: WorkspaceState,
    new: WorkspaceState,
)
    requires
        user_owned(Some(old)),
        rebuilt(snap, files, Some(old), ws, n, middle),
        seeded(middle, new),
    ensures
        doc_view(new.trajectory) == doc_view(old.trajectory),
        new.edit_state == old.edit_state,
{
}

/// Seeding never overwrites a mission, open or finished.
pub proof fn seeding_spares_missions(w: WorkspaceState, r: WorkspaceState)
    requires
        seeded(w, r),
        w.trajectory is Some,
        !no_mission(w.trajectory.unwrap()@),
    ensures
        r == w,
{
}

/// What a seeded workspace shows: the missions of its description, and everything
/// else as it was.
pub proof fn seeding_fills_only_the_missions(w: WorkspaceState, r: WorkspaceState, other: Seq<char>)
    requires
        seeded(w, r),
        is_seeded(w),
        other != SECTION_MISSION@,
    ensures
        rows_named(r.trajectory.unwrap()@, SECTION_MISSION@) == described_missions(
            w.workspace.description,
        ),
        rows_named(r.trajectory.unwrap()@, other) == rows_named(w.trajectory.unwrap()@, other),
        !is_seeded(r),
{
    replaced_rows_are_found(
        w.trajectory.unwrap()@,
        SECTION_MISSION@,
        described_missions(w.workspace.description),
        other,
    );
}

/// Linear rows take the place of Beads rows: no workspace has both after a refresh.
pub proof fn linear_takes_precedence(
    snap: RefreshSnapshot,
    files: RefreshFiles,
    old: Option<WorkspaceState>,
    ws: Workspace,
    n: int,
    r: WorkspaceState,
)
    requires
        rebuilt(snap, files, old, ws, n, r),
    ensures
        r.linear is None || r.beads is None,
{
}

} // verus!
