//! Requests that keys leave behind for the event loop, and what it hands back:
//! links to open, goals to dispatch, surfaces to go to, screens to poll.
use crate::app::{
    edited, editing, index_of, lemma_last_index, only_workspaces, selected_edited, App,
};
use crate::clock::Moment;
use crate::dispatch_modal::DispatchOutcome;
use crate::peek_view::{rebuild_agent_buffer, took_log, took_screen, PeekState, Turn};
use crate::search::{join, join_strings};
use crate::text::{lemma_views_push, opt_view, views};
use crate::trajectory::{
    clone_items, lemma_same_sections, replaced_rows_are_found, rows_named, with_section, DocView,
    ItemView, TrajectoryDoc, SECTION_MISSION,
};
use crate::trajectory_edit::{
    action_views, event_views, events_of, explanation, save, EditAction, SavePlan,
    TrajectoryEditState,
};
use crate::workspace::WorkspaceState;
use vstd::prelude::*;

verus! {

/// The texts of rows.
pub open spec fn row_texts(rows: Seq<ItemView>) -> Seq<Seq<char>> {
    rows.map_values(|i: ItemView| i.text)
}

/// The active missions, one to a line.
pub open spec fn mission_text(d: DocView) -> Seq<char> {
    join(row_texts(rows_named(d, SECTION_MISSION@)), "\n"@)
}

/// The active missions, one to a line.
pub fn mission_description(doc: &TrajectoryDoc) -> (r: String)
    ensures
        r@ == mission_text(doc@),
{
    let rows = doc.rows(SECTION_MISSION);
    let ghost all = row_texts(rows_named(doc@, SECTION_MISSION@));
    let mut texts: Vec<String> = Vec::new();
    let mut i: usize = 0;
    while i < rows.len()
        invariant
            i <= rows@.len(),
            all.len() == rows@.len(),
            forall|k: int| 0 <= k < rows@.len() ==> (#[trigger] rows@[k]).text@ == all[k],
            views(texts@) =~= all.take(i as int),
        decreases rows@.len() - i,
    {
        let t = rows[i].text.clone();
        proof {
            lemma_views_push(texts@, t);
        }
        texts.push(t);
        i += 1;
    }
    assert(views(texts@) =~= all);
    join_strings(&texts, "\n")
}

/// The result of moving those of a workspace's checked missions that are due: the
/// document and the editor's state as they would become, whether they could be saved,
/// and whether other moves still wait for their time.
pub struct Settlement {
    pub doc: TrajectoryDoc,
    pub state: TrajectoryEditState,
    pub actions: Vec<EditAction>,
    pub saved: bool,
    pub pending: bool,
}

/// Something moves, and the workspace has a document and an editor.
pub open spec fn moves(w: WorkspaceState, s: Option<Settlement>) -> bool {
    w.trajectory is Some && w.edit_state is Some && s is Some && s.unwrap().actions@.len() > 0
}

/// A settlement that takes effect: something moves, and it was saved.
pub open spec fn takes_effect(w: WorkspaceState, s: Option<Settlement>) -> bool {
    moves(w, s) && s.unwrap().saved
}

/// The workspace after a settlement: all of it, or nothing. It goes on waiting while
/// other moves do.
pub open spec fn after_settlement(w: WorkspaceState, s: Option<Settlement>) -> WorkspaceState {
    if takes_effect(w, s) {
        WorkspaceState {
            trajectory: Some(s.unwrap().doc),
            edit_state: Some(s.unwrap().state),
            missions_pending: s.unwrap().pending,
            ..w
        }
    } else {
        w
    }
}

/// The settlement of workspace `i`.
pub open spec fn step_at(steps: Seq<Option<Settlement>>, i: int) -> Option<Settlement> {
    if 0 <= i < steps.len() {
        steps[i]
    } else {
        None
    }
}

/// What the multiplexer is told: reference and missions of each of the first `n`
/// workspaces whose settlement takes effect.
pub open spec fn settled_missions(
    s: Seq<WorkspaceState>,
    steps: Seq<Option<Settlement>>,
    n: int,
) -> Seq<(Seq<char>, Seq<char>)>
    decreases n,
{
    if n <= 0 {
        Seq::empty()
    } else {
        let before = settled_missions(s, steps, n - 1);
        if takes_effect(s[n - 1], step_at(steps, n - 1)) {
            before.push(
                (
                    s[n - 1].workspace.ref_id@,
                    mission_text(step_at(steps, n - 1).unwrap().doc@),
                ),
            )
        } else {
            before
        }
    }
}

/// The first `n` workspaces whose settlement is to be saved.
pub open spec fn saves(
    s: Seq<WorkspaceState>,
    steps: Seq<Option<Settlement>>,
    n: int,
) -> Seq<int>
    decreases n,
{
    if n <= 0 {
        Seq::empty()
    } else if moves(s[n - 1], step_at(steps, n - 1)) {
        saves(s, steps, n - 1).push(n - 1)
    } else {
        saves(s, steps, n - 1)
    }
}

/// Positions as integers.
pub open spec fn positions(s: Seq<usize>) -> Seq<int> {
    s.map_values(|i: usize| i as int)
}

/// The document with the missions and the mission history of another one.
pub open spec fn with_missions_of(d: DocView, stable: DocView) -> DocView {
    DocView {
        mission_history: stable.mission_history,
        ..with_section(d, SECTION_MISSION@, rows_named(stable, SECTION_MISSION@))
    }
}

/// What is written to disk of a workspace's document. While the move of a checked
/// mission is only previewed, its missions are written as they were before; without
/// knowing how they were, nothing is written.
pub open spec fn persisted(w: WorkspaceState, stable: Option<DocView>) -> Option<DocView> {
    match w.trajectory {
        None => None,
        Some(d) => if !w.missions_pending {
            Some(d@)
        } else {
            match stable {
                Some(s) => Some(with_missions_of(d@, s)),
                None => None,
            }
        },
    }
}

/// What is written to disk of a workspace's document, given the document as it was
/// before the preview.
pub fn document_to_persist(ws: &WorkspaceState, stable: Option<&TrajectoryDoc>) -> (r: Option<
    TrajectoryDoc,
>)
    ensures
        (match r {
            Some(d) => Some(d@),
            None => None,
        }) == persisted(
            *ws,
            match stable {
                Some(s) => Some(s@),
                None => None,
            },
        ),
{
    match &ws.trajectory {
        None => None,
        Some(d) => {
            let mut doc = d.clone();
            if !ws.missions_pending {
                return Some(doc);
            }
            match stable {
                None => None,
                Some(s) => {
                    doc.replace_section_items(SECTION_MISSION, s.rows(SECTION_MISSION));
                    doc.mission_history = clone_items(&s.mission_history);
                    assert(doc@ =~= with_missions_of(d@, s@));
                    Some(doc)
                },
            }
        },
    }
}

/// Pairs of texts.
pub open spec fn pair_views(s: Seq<(String, String)>) -> Seq<(Seq<char>, Seq<char>)> {
    s.map_values(|p: (String, String)| (p.0@, p.1@))
}

impl App {
    /// Reads and clears the link that the selected row asked to open.
    pub fn take_linear_open_request(&mut self) -> (r: Option<String>)
        ensures
            old(self).well_formed() ==> final(self).well_formed(),
            only_workspaces(*old(self), *final(self)),
            r == (if old(self).selected < old(self).workspaces@.len() {
                old(self).workspaces@[old(self).selected as int].linear_open_pending
            } else {
                None
            }),
            final(self).workspaces@ == selected_edited(
                old(self).workspaces@,
                old(self).selected as int,
                |w: WorkspaceState| (WorkspaceState { linear_open_pending: None, ..w }),
            ),
    {
        let idx: usize = self.selected;
        if idx < self.workspaces.len() {
            self.workspaces[idx].linear_open_pending.take()
        } else {
            None
        }
    }

    /// Reads and clears the outcome that the dispatch modal left.
    pub fn take_dispatch_outcome(&mut self) -> (r: Option<DispatchOutcome>)
        ensures
            old(self).well_formed() ==> final(self).well_formed(),
            only_workspaces(*old(self), *final(self)),
            r == (if old(self).selected < old(self).workspaces@.len() {
                old(self).workspaces@[old(self).selected as int].dispatch_pending_outcome
            } else {
                None
            }),
            final(self).workspaces@ == selected_edited(
                old(self).workspaces@,
                old(self).selected as int,
                |w: WorkspaceState| (WorkspaceState { dispatch_pending_outcome: None, ..w }),
            ),
    {
        let idx: usize = self.selected;
        if idx < self.workspaces.len() {
            self.workspaces[idx].dispatch_pending_outcome.take()
        } else {
            None
        }
    }

    /// Closes the dispatch modal.
    pub fn close_dispatch_modal(&mut self)
        ensures
            old(self).well_formed() ==> final(self).well_formed(),
            only_workspaces(*old(self), *final(self)),
            final(self).workspaces@ == selected_edited(
                old(self).workspaces@,
                old(self).selected as int,
                |w: WorkspaceState|
                    (WorkspaceState { dispatch_modal: None, dispatch_pending_outcome: None, ..w }),
            ),
    {
        let idx: usize = self.selected;
        if idx < self.workspaces.len() {
            self.workspaces[idx].dispatch_modal = None;
            self.workspaces[idx].dispatch_pending_outcome = None;
        }
    }

    /// Records why a dispatch failed. It is shown until the next key press.
    pub fn set_dispatch_error(&mut self, msg: String)
        ensures
            old(self).well_formed() ==> final(self).well_formed(),
            only_workspaces(*old(self), *final(self)),
            final(self).workspaces@ == selected_edited(
                old(self).workspaces@,
                old(self).selected as int,
                |w: WorkspaceState| (WorkspaceState { dispatch_error: Some(msg), ..w }),
            ),
    {
        let idx: usize = self.selected;
        if idx < self.workspaces.len() {
            self.workspaces[idx].dispatch_error = Some(msg);
        }
    }

    /// Reads and clears the request to leave peek mode for the surface itself.
    /// Returns the workspace and the surface to go to; they are the same when the
    /// peek named no surface.
    pub fn take_peek_yield(&mut self) -> (r: Option<(String, String)>)
        ensures
            old(self).well_formed() ==> final(self).well_formed(),
            only_workspaces(*old(self), *final(self)),
            ({
                let i = old(self).selected as int;
                let asked = old(self).selected < old(self).workspaces@.len()
                    && old(self).workspaces@[i].peek_yield_pending;
                let w = old(self).workspaces@[i];
                &&& final(self).workspaces@ == (if asked {
                    old(self).workspaces@.update(
                        i,
                        WorkspaceState { peek_yield_pending: false, peek_state: None, ..w },
                    )
                } else {
                    old(self).workspaces@
                })
                &&& match r {
                    Some(t) => asked && (t.0@, t.1@) == (match w.peek_state {
                        Some(p) => (p.workspace_ref@, p.surface_ref@),
                        None => (w.workspace.ref_id@, w.workspace.ref_id@),
                    }),
                    None => !asked,
                }
            }),
    {
        let idx: usize = self.selected;
        if idx >= self.workspaces.len() || !self.workspaces[idx].peek_yield_pending {
            return None;
        }
        let target = match &self.workspaces[idx].peek_state {
            Some(p) => (p.workspace_ref.clone(), p.surface_ref.clone()),
            None => (
                self.workspaces[idx].workspace.ref_id.clone(),
                self.workspaces[idx].workspace.ref_id.clone(),
            ),
        };
        self.workspaces[idx].peek_yield_pending = false;
        self.workspaces[idx].peek_state = None;
        Some(target)
    }

    /// Hands a polled screen to the workspace's peek.
    pub fn apply_peek_screen_update(
        &mut self,
        workspace_uuid: &str,
        screen_text: String,
        now: Moment,
    )
        ensures
            old(self).well_formed() ==> final(self).well_formed(),
            only_workspaces(*old(self), *final(self)),
            final(self).workspaces@.len() == old(self).workspaces@.len(),
            forall|j: int|
                0 <= j < old(self).workspaces@.len() && Some(j) != index_of(
                    old(self).workspaces@,
                    workspace_uuid@,
                ) ==> (#[trigger] final(self).workspaces@[j]) == old(self).workspaces@[j],
            match index_of(old(self).workspaces@, workspace_uuid@) {
                Some(i) => {
                    let w = old(self).workspaces@[i];
                    let v = final(self).workspaces@[i];
                    &&& v == (WorkspaceState { peek_state: v.peek_state, ..w })
                    &&& match w.peek_state {
                        Some(p) => v.peek_state is Some && took_screen(
                            p,
                            screen_text@,
                            now,
                            v.peek_state.unwrap(),
                        ),
                        None => v.peek_state is None,
                    }
                },
                None => true,
            },
    {
        proof {
            lemma_last_index(self.workspaces@, workspace_uuid@, self.workspaces@.len() as int);
        }
        if let Some(idx) = self.workspace_index_for(workspace_uuid) {
            match &mut self.workspaces[idx].peek_state {
                Some(peek) => peek.ingest_screen(screen_text.as_str(), now),
                None => {},
            }
        }
    }

    /// The workspace and surface whose screen the selected workspace's peek is due
    /// to poll.
    pub fn peek_needs_poll(&self, now: Moment) -> (r: Option<(&str, &str)>)
        ensures
            ({
                let w = self.workspaces@[self.selected as int];
                let due = self.selected < self.workspaces@.len() && w.peek_state is Some
                    && w.peek_state.unwrap().poll_due(now);
                match r {
                    Some(t) => due && t.0@ == w.workspace.uuid@ && t.1@
                        == w.peek_state.unwrap().surface_ref@,
                    None => !due,
                }
            }),
    {
        match self.selected_workspace() {
            Some(ws) => match &ws.peek_state {
                Some(peek) => {
                    if peek.should_poll(now) {
                        Some((ws.workspace.uuid.as_str(), peek.surface_ref.as_str()))
                    } else {
                        None
                    }
                },
                None => None,
            },
            None => None,
        }
    }

    /// Marks the selected workspace's peek as being polled.
    pub fn mark_peek_polling(&mut self)
        ensures
            old(self).well_formed() ==> final(self).well_formed(),
            only_workspaces(*old(self), *final(self)),
            final(self).workspaces@ == selected_edited(
                old(self).workspaces@,
                old(self).selected as int,
                |w: WorkspaceState|
                    match w.peek_state {
                        Some(p) => WorkspaceState {
                            peek_state: Some(PeekState { polling: true, ..p }),
                            ..w
                        },
                        None => w,
                    },
            ),
    {
        let ghost before = self.workspaces@;
        let idx: usize = self.selected;
        if idx < self.workspaces.len() {
            match &mut self.workspaces[idx].peek_state {
                Some(peek) => {
                    peek.polling = true;
                },
                None => {},
            }
            assert(before[idx as int].peek_state is None ==> self.workspaces@ =~= before);
        }
    }

    /// Hands the turns of a session log to a peek that shows one; `None` when the
    /// log could not be read.
    pub fn refresh_agent_peek_buffer(
        &mut self,
        uuid: &str,
        turns: Option<&Vec<Turn>>,
        now: Moment,
    )
        ensures
            old(self).well_formed() ==> final(self).well_formed(),
            only_workspaces(*old(self), *final(self)),
            final(self).workspaces@.len() == old(self).workspaces@.len(),
            forall|j: int|
                0 <= j < old(self).workspaces@.len() && Some(j) != index_of(
                    old(self).workspaces@,
                    uuid@,
                ) ==> (#[trigger] final(self).workspaces@[j]) == old(self).workspaces@[j],
            match index_of(old(self).workspaces@, uuid@) {
                Some(i) => {
                    let w = old(self).workspaces@[i];
                    let v = final(self).workspaces@[i];
                    &&& v == (WorkspaceState { peek_state: v.peek_state, ..w })
                    &&& if w.peek_state is Some && w.peek_state.unwrap().source is Agent {
                        v.peek_state is Some && took_log(
                            w.peek_state.unwrap(),
                            turns,
                            now,
                            v.peek_state.unwrap(),
                        )
                    } else {
                        v.peek_state == w.peek_state
                    }
                },
                None => true,
            },
    {
        proof {
            lemma_last_index(self.workspaces@, uuid@, self.workspaces@.len() as int);
        }
        if let Some(idx) = self.workspace_index_for(uuid) {
            let logged = match &self.workspaces[idx].peek_state {
                Some(peek) => !peek.uses_cmux_screen(),
                None => false,
            };
            if logged {
                match &mut self.workspaces[idx].peek_state {
                    Some(peek) => rebuild_agent_buffer(peek, turns, now),
                    None => {},
                }
            }
        }
    }

    /// The selected workspace and its missions, as the multiplexer is told of them
    /// after a save.
    pub fn selected_mission(&self) -> (r: Option<(String, String)>)
        ensures
            ({
                let w = self.workspaces@[self.selected as int];
                let some = self.selected < self.workspaces@.len() && w.trajectory is Some
                    && crate::trajectory::section_named(
                    w.trajectory.unwrap()@,
                    SECTION_MISSION@,
                ) is Some;
                match r {
                    Some(t) => some && t.0@ == w.workspace.ref_id@ && t.1@ == mission_text(
                        w.trajectory.unwrap()@,
                    ),
                    None => !some,
                }
            }),
    {
        match self.selected_workspace() {
            Some(ws) => match &ws.trajectory {
                Some(doc) => match doc.find_section(SECTION_MISSION) {
                    Some(_) => Some((ws.workspace.ref_id.clone(), mission_description(doc))),
                    None => None,
                },
                None => None,
            },
            None => None,
        }
    }

    /// The workspaces whose settlement is to be saved, in order and each once.
    pub fn moves_to_save(&self, steps: &Vec<Option<Settlement>>) -> (r: Vec<usize>)
        ensures
            positions(r@) == saves(self.workspaces@, steps@, self.workspaces@.len() as int),
    {
        let mut out: Vec<usize> = Vec::new();
        let mut i: usize = 0;
        assert(positions(out@) =~= Seq::<int>::empty());
        while i < self.workspaces.len()
            invariant
                i <= self.workspaces@.len(),
                positions(out@) == saves(self.workspaces@, steps@, i as int),
            decreases self.workspaces@.len() - i,
        {
            let due = i < steps.len() && match &steps[i] {
                Some(s) => s.actions.len() > 0,
                None => false,
            };
            if due && self.workspaces[i].trajectory.is_some()
                && self.workspaces[i].edit_state.is_some() {
                let ghost before = out@;
                out.push(i);
                assert(positions(out@) =~= positions(before).push(i as int));
            }
            i += 1;
        }
        out
    }

    /// Settles the missions that were checked a while ago, in the order of the
    /// workspaces. A workspace whose settlement could not be saved stays exactly as
    /// it is. Returns reference and missions of each workspace that changed.
    pub fn settle_pending_mission_moves(&mut self, steps: Vec<Option<Settlement>>) -> (r: Vec<
        (String, String),
    >)
        ensures
            old(self).well_formed() ==> final(self).well_formed(),
            only_workspaces(*old(self), *final(self)),
            final(self).workspaces@ == all_settled(old(self).workspaces@, steps@),
            pair_views(r@) == settled_missions(
                old(self).workspaces@,
                steps@,
                old(self).workspaces@.len() as int,
            ),
    {
        let ghost before = *self;
        let ghost all = steps@;
        let mut steps = steps;
        let mut out: Vec<(String, String)> = Vec::new();
        let n: usize = self.workspaces.len();
        let mut i: usize = 0;
        assert(pair_views(out@) =~= Seq::<(Seq<char>, Seq<char>)>::empty());
        while i < n
            invariant
                i <= n,
                n == self.workspaces@.len(),
                n == before.workspaces@.len(),
                only_workspaces(before, *self),
                steps@.len() == all.len(),
                forall|k: int| i <= k < all.len() ==> (#[trigger] steps@[k]) == all[k],
                forall|k: int|
                    0 <= k < i ==> (#[trigger] self.workspaces@[k]) == after_settlement(
                        before.workspaces@[k],
                        step_at(all, k),
                    ),
                forall|k: int|
                    i <= k < n ==> (#[trigger] self.workspaces@[k]) == before.workspaces@[k],
                pair_views(out@) == settled_missions(before.workspaces@, all, i as int),
            decreases n - i,
        {
            let mut step: Option<Settlement> = None;
            if i < steps.len() {
                step = steps[i].take();
            }
            assert(step == step_at(all, i as int));
            if self.workspaces[i].trajectory.is_some() && self.workspaces[i].edit_state.is_some() {
                if let Some(s) = step {
                    if s.actions.len() > 0 && s.saved {
                        let told = (
                            self.workspaces[i].workspace.ref_id.clone(),
                            mission_description(&s.doc),
                        );
                        let ghost so_far = out@;
                        out.push(told);
                        assert(pair_views(out@) =~= pair_views(so_far).push((told.0@, told.1@)));
                        self.workspaces[i].trajectory = Some(s.doc);
                        self.workspaces[i].edit_state = Some(s.state);
                        self.workspaces[i].missions_pending = s.pending;
                    }
                }
            }
            i += 1;
        }
        assert(self.workspaces@ =~= all_settled(before.workspaces@, all));
        out
    }
}

/// `plan` and `v` are what saving the edits of `w` gives.
pub open spec fn saved_edits(
    w: WorkspaceState,
    actions: Seq<EditAction>,
    highest: u32,
    plan: SavePlan,
    v: WorkspaceState,
) -> bool {
    let why = explanation(w.edit_state.unwrap().input_ctx_buffer@);
    &&& plan.snapshot == highest + 1
    &&& opt_view(plan.user_why) == why
    &&& event_views(plan.events@) == events_of(action_views(actions), plan.snapshot, why)
    &&& v == (WorkspaceState { trajectory: v.trajectory, ..w })
    &&& v.trajectory is Some
    &&& v.trajectory.unwrap()@ == (DocView {
        snapshot: Some(plan.snapshot),
        ..w.trajectory.unwrap()@
    })
}

impl App {
    /// Numbers the next snapshot of the selected workspace's document and works out
    /// what the save writes. `highest_snapshot` is the highest number on disk.
    pub fn save_trajectory_edits(&mut self, actions: &Vec<EditAction>, highest_snapshot: u32) -> (r:
        Option<SavePlan>)
        requires
            highest_snapshot < u32::MAX,
        ensures
            old(self).well_formed() ==> final(self).well_formed(),
            only_workspaces(*old(self), *final(self)),
            ({
                let i = old(self).selected as int;
                let w = old(self).workspaces@[i];
                let edited = old(self).selected < old(self).workspaces@.len()
                    && w.trajectory is Some && w.edit_state is Some;
                match r {
                    Some(plan) => edited && saved_edits(
                        w,
                        actions@,
                        highest_snapshot,
                        plan,
                        final(self).workspaces@[i],
                    ) && final(self).workspaces@ == old(self).workspaces@.update(
                        i,
                        final(self).workspaces@[i],
                    ),
                    None => !edited && final(self).workspaces@ == old(self).workspaces@,
                }
            }),
    {
        let idx: usize = self.selected;
        if idx >= self.workspaces.len() || self.workspaces[idx].edit_state.is_none()
            || self.workspaces[idx].trajectory.is_none() {
            return None;
        }
        let ghost before = self.workspaces@;
        let state = match &self.workspaces[idx].edit_state {
            Some(s) => s.clone(),
            None => {
                return None;
            },
        };
        let mut plan: Option<SavePlan> = None;
        match &mut self.workspaces[idx].trajectory {
            Some(doc) => {
                plan = Some(save(doc, &state, actions, highest_snapshot));
            },
            None => {},
        }
        assert(self.workspaces@ =~= before.update(idx as int, self.workspaces@[idx as int]));
        plan
    }
}

/// A settlement that could not be saved changes nothing, so the next attempt starts
/// from the same state.
pub proof fn a_failed_settlement_changes_nothing(w: WorkspaceState, s: Settlement)
    requires
        !s.saved,
    ensures
        after_settlement(w, Some(s)) == w,
{
}

proof fn lemma_saves(s: Seq<WorkspaceState>, steps: Seq<Option<Settlement>>, n: int)
    requires
        0 <= n <= s.len(),
    ensures
        forall|k: int|
            0 <= k < saves(s, steps, n).len() ==> 0 <= #[trigger] saves(s, steps, n)[k] < n && moves(
                s[saves(s, steps, n)[k]],
                step_at(steps, saves(s, steps, n)[k]),
            ),
        forall|j: int, k: int|
            0 <= j < k < saves(s, steps, n).len() ==> saves(s, steps, n)[j] < saves(s, steps, n)[k],
        forall|i: int|
            0 <= i < n && moves(s[i], step_at(steps, i)) ==> #[trigger] saves(
                s,
                steps,
                n,
            ).contains(i),
    decreases n,
{
    if n > 0 {
        lemma_saves(s, steps, n - 1);
        let before = saves(s, steps, n - 1);
        let now = saves(s, steps, n);
        assert forall|i: int| 0 <= i < n && moves(s[i], step_at(steps, i)) implies
            #[trigger] now.contains(i) by {
            if i < n - 1 {
                assert(before.contains(i));
                let k = choose|k: int| 0 <= k < before.len() && before[k] == i;
                assert(now[k] == i);
            } else {
                assert(now[before.len() as int] == i);
            }
        }
    }
}

/// The moves of every workspace that has some due reach the save exactly once, and no
/// others do.
pub proof fn every_due_move_is_saved_once(
    s: Seq<WorkspaceState>,
    steps: Seq<Option<Settlement>>,
    i: int,
)
    requires
        0 <= i < s.len(),
    ensures
        saves(s, steps, s.len() as int).no_duplicates(),
        saves(s, steps, s.len() as int).contains(i) == moves(s[i], step_at(steps, i)),
{
    lemma_saves(s, steps, s.len() as int);
}

proof fn lemma_one_settled(s: Seq<WorkspaceState>, steps: Seq<Option<Settlement>>, n: int, i: int)
    requires
        0 <= n <= s.len(),
        forall|j: int| 0 <= j < n && j != i ==> !takes_effect(#[trigger] s[j], step_at(steps, j)),
    ensures
        settled_missions(s, steps, n) == if 0 <= i < n && takes_effect(s[i], step_at(steps, i)) {
            seq![(s[i].workspace.ref_id@, mission_text(step_at(steps, i).unwrap().doc@))]
        } else {
            Seq::empty()
        },
    decreases n,
{
    if n > 0 {
        lemma_one_settled(s, steps, n - 1, i);
        assert(!(n - 1 != i) || !takes_effect(s[n - 1], step_at(steps, n - 1)));
        assert(settled_missions(s, steps, n) =~= if 0 <= i < n && takes_effect(
            s[i],
            step_at(steps, i),
        ) {
            seq![(s[i].workspace.ref_id@, mission_text(step_at(steps, i).unwrap().doc@))]
        } else {
            Seq::empty()
        });
    }
}

proof fn lemma_one_saved(s: Seq<WorkspaceState>, steps: Seq<Option<Settlement>>, n: int, i: int)
    requires
        0 <= n <= s.len(),
        forall|j: int| 0 <= j < n && j != i ==> !moves(#[trigger] s[j], step_at(steps, j)),
    ensures
        saves(s, steps, n) == if 0 <= i < n && moves(s[i], step_at(steps, i)) {
            seq![i]
        } else {
            Seq::empty()
        },
    decreases n,
{
    if n > 0 {
        lemma_one_saved(s, steps, n - 1, i);
        assert(!(n - 1 != i) || !moves(s[n - 1], step_at(steps, n - 1)));
        assert(saves(s, steps, n) =~= if 0 <= i < n && moves(s[i], step_at(steps, i)) {
            seq![i]
        } else {
            Seq::empty()
        });
    }
}

/// The workspaces after their settlements.
pub open spec fn all_settled(
    s: Seq<WorkspaceState>,
    steps: Seq<Option<Settlement>>,
) -> Seq<WorkspaceState> {
    Seq::new(s.len(), |i: int| after_settlement(s[i], step_at(steps, i)))
}

/// A move whose save was refused is tried again. One workspace has moves due, and the
/// first save fails: nothing is reported and nothing changes. When the same moves are
/// due again and the save succeeds, they reach it once, the workspace's missions are
/// reported, and it shows the settled document.
pub proof fn a_refused_save_is_retried(
    s: Seq<WorkspaceState>,
    refused: Seq<Option<Settlement>>,
    taken: Seq<Option<Settlement>>,
    i: int,
)
    requires
        0 <= i < s.len(),
        forall|j: int| 0 <= j < s.len() && j != i ==> !moves(#[trigger] s[j], step_at(refused, j)),
        forall|j: int| 0 <= j < s.len() && j != i ==> !moves(#[trigger] s[j], step_at(taken, j)),
        moves(s[i], step_at(refused, i)),
        !step_at(refused, i).unwrap().saved,
        moves(s[i], step_at(taken, i)),
        step_at(taken, i).unwrap().saved,
    ensures
        settled_missions(s, refused, s.len() as int) == Seq::<(Seq<char>, Seq<char>)>::empty(),
        all_settled(s, refused) == s,
        saves(s, taken, s.len() as int) == seq![i],
        settled_missions(s, taken, s.len() as int) == seq![
            (s[i].workspace.ref_id@, mission_text(step_at(taken, i).unwrap().doc@)),
        ],
        all_settled(s, taken)[i].trajectory == Some(step_at(taken, i).unwrap().doc),
        all_settled(s, taken)[i].missions_pending == step_at(taken, i).unwrap().pending,
{
    lemma_one_settled(s, refused, s.len() as int, i);
    lemma_one_settled(s, taken, s.len() as int, i);
    lemma_one_saved(s, taken, s.len() as int, i);
    assert forall|j: int| 0 <= j < s.len() implies (#[trigger] all_settled(s, refused)[j])
        == s[j] by {
        assert(j == i || !moves(s[j], step_at(refused, j)));
    }
    assert(all_settled(s, refused) =~= s);
}

/// A workspace is held back from regeneration as long as a move waits, also when
/// another one was settled.
pub proof fn a_waiting_move_holds_the_workspace(w: WorkspaceState, s: Settlement)
    requires
        w.missions_pending,
        s.pending,
    ensures
        after_settlement(w, Some(s)).missions_pending,
        editing(after_settlement(w, Some(s))),
{
}

/// A preview is never written to disk: the missions and the history that are written
/// are those from before it, and all other sections are as shown.
pub proof fn a_preview_is_not_persisted(w: WorkspaceState, stable: DocView, name: Seq<char>)
    requires
        w.trajectory is Some,
        w.missions_pending,
    ensures
        ({
            let shown = w.trajectory.unwrap()@;
            &&& persisted(w, Some(stable)) is Some
            &&& rows_named(persisted(w, Some(stable)).unwrap(), SECTION_MISSION@) == rows_named(
                stable,
                SECTION_MISSION@,
            )
            &&& persisted(w, Some(stable)).unwrap().mission_history == stable.mission_history
            &&& name != SECTION_MISSION@ ==> rows_named(
                persisted(w, Some(stable)).unwrap(),
                name,
            ) == rows_named(shown, name)
            &&& persisted(w, None) is None
        }),
{
    let shown = w.trajectory.unwrap()@;
    let rows = rows_named(stable, SECTION_MISSION@);
    let mid = with_section(shown, SECTION_MISSION@, rows);
    let out = with_missions_of(shown, stable);
    replaced_rows_are_found(shown, SECTION_MISSION@, rows, name);
    lemma_same_sections(out, mid, SECTION_MISSION@, 0);
    lemma_same_sections(out, mid, name, 0);
}

} // verus!
