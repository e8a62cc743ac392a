//! Regenerating trajectories: when it is due, what it starts from, and what becomes
//! of the result.
use crate::app::{
    edited, editing, index_of, is_editing, lemma_last_index, only_workspaces, App,
};
use crate::app_panes::pair_views;
use crate::clock::Moment;
use crate::dismissal::{every_chosen_workspace_is_listed, ids_where};
use crate::files::{
    contents_in_order, contents_of, contents_with_extension, file_views, last_of,
    load_recent_user_explanations, load_surface_summaries, numbered_contents,
    recent_explanations, summaries_of, NamedFile,
};
use crate::surface::SurfaceInfo;
use crate::text::{clone_opt, clone_strings, lemma_views_push, trim, trim_str, views};
use crate::trajectory::{
    item_views, replaced_rows_are_found, rows_named, with_canonical, with_section, DocView, Item,
    ItemView, TrajectoryDoc, SECTION_GOALS, SECTION_MISSION,
};
use crate::workspace::{RegenSchedulerState, WorkspaceState};
use vstd::prelude::*;

verus! {

/// Events that make a regeneration due.
pub const EVENT_THRESHOLD: u32 = 10;

/// Seconds since the last regeneration that make another due, if there were events.
pub const TIME_THRESHOLD_SECS: u64 = 300;

/// Events that a regeneration looks back on.
pub const RECENT_EVENTS: usize = 20;

/// Explanations that a regeneration looks back on.
pub const RECENT_EXPLANATIONS: usize = 3;

// ---------------------------------------------------------------------------
// Scheduling
// ---------------------------------------------------------------------------

/// No mission was ever set.
pub open spec fn no_mission(d: DocView) -> bool {
    d.mission_history.len() == 0 && rows_named(d, SECTION_MISSION@).len() == 0
}

/// Whether no mission was ever set.
pub fn has_no_mission(doc: &TrajectoryDoc) -> (r: bool)
    ensures
        r == no_mission(doc@),
{
    if doc.mission_history.len() > 0 {
        return false;
    }
    match doc.find_section(SECTION_MISSION) {
        Some(k) => {
            assert(doc@.sections[k as int].items.len() == doc.sections@[k as int].items@.len());
            doc.sections[k].items.len() == 0
        },
        None => true,
    }
}

/// Enough has happened for another regeneration.
pub open spec fn is_stale(r: RegenSchedulerState, now: Moment) -> bool {
    r.events_since_last_regen > 0 && (r.events_since_last_regen >= EVENT_THRESHOLD || match r.last_regen_at {
        Some(t) => t.elapsed_secs_spec(now) >= TIME_THRESHOLD_SECS,
        None => true,
    })
}

/// A workspace is due for regeneration: it has a document that nobody is editing,
/// none is under way, and it has no mission or enough has happened.
pub open spec fn is_due(w: WorkspaceState, now: Moment) -> bool {
    w.trajectory is Some && !editing(w) && !w.regen.regen_in_flight && (no_mission(
        w.trajectory.unwrap()@,
    ) || is_stale(w.regen, now))
}

fn due(ws: &WorkspaceState, now: Moment) -> (r: bool)
    ensures
        r == is_due(*ws, now),
{
    match &ws.trajectory {
        None => false,
        Some(doc) => {
            if is_editing(ws) || ws.regen.regen_in_flight {
                return false;
            }
            if has_no_mission(doc) {
                return true;
            }
            if ws.regen.events_since_last_regen == 0 {
                return false;
            }
            if ws.regen.events_since_last_regen >= EVENT_THRESHOLD {
                return true;
            }
            match ws.regen.last_regen_at {
                Some(t) => t.elapsed_secs(now) >= TIME_THRESHOLD_SECS,
                None => true,
            }
        },
    }
}

/// The scheduler's state after a regeneration was forced.
pub open spec fn forced(r: RegenSchedulerState) -> RegenSchedulerState {
    RegenSchedulerState { events_since_last_regen: u32::MAX, last_regen_at: None, ..r }
}

// ---------------------------------------------------------------------------
// What a regeneration starts from
// ---------------------------------------------------------------------------

/// Files that a regeneration reads.
pub struct RegenFiles {
    /// The document as text.
    pub markdown: String,
    /// The event log, the oldest entry first.
    pub events: Vec<String>,
    /// The user's explanations.
    pub inputs: Vec<NamedFile>,
    /// The surfaces directory.
    pub surfaces: Vec<NamedFile>,
    /// The user's last request in the session log.
    pub user_ask: Option<String>,
}

/// What a regeneration starts from.
pub struct RegenInputs {
    pub workspace_name: String,
    pub current_trajectory: String,
    pub recent_events: Vec<String>,
    pub recent_user_explanations: Vec<String>,
    pub session_bullets: Vec<String>,
    pub surface_summaries: Vec<(String, String)>,
    pub tool_call_count: u32,
    pub cmux_surface_order: Vec<String>,
    pub user_ask: Option<String>,
}

/// The titles of surfaces.
pub open spec fn titles(s: Seq<SurfaceInfo>) -> Seq<Seq<char>> {
    s.map_values(|x: SurfaceInfo| x.title@)
}

/// The titles of surfaces.
pub fn surface_titles(surfaces: &Vec<SurfaceInfo>) -> (r: Vec<String>)
    ensures
        views(r@) == titles(surfaces@),
{
    let mut out: Vec<String> = Vec::new();
    let mut i: usize = 0;
    while i < surfaces.len()
        invariant
            i <= surfaces@.len(),
            views(out@) =~= titles(surfaces@).take(i as int),
        decreases surfaces@.len() - i,
    {
        let t = surfaces[i].title.clone();
        proof {
            lemma_views_push(out@, t);
        }
        out.push(t);
        i += 1;
    }
    assert(views(out@) =~= titles(surfaces@));
    out
}

fn last_texts(v: &Vec<String>, n: usize) -> (r: Vec<String>)
    ensures
        r@ == last_of(v@, n as int),
{
    let len: usize = v.len();
    let from: usize = len.saturating_sub(n);
    let mut out: Vec<String> = Vec::new();
    let mut i: usize = from;
    while i < len
        invariant
            from <= i <= len,
            len == v@.len(),
            out@ =~= v@.subrange(from as int, i as int),
        decreases len - i,
    {
        out.push(v[i].clone());
        i += 1;
    }
    assert(out@ =~= last_of(v@, n as int));
    out
}

/// `r` is what a regeneration of `w` starts from.
pub open spec fn gathers(w: WorkspaceState, f: RegenFiles, r: RegenInputs) -> bool {
    &&& r.workspace_name@ == w.workspace.name@
    &&& r.current_trajectory == f.markdown
    &&& r.recent_events@ == last_of(f.events@, RECENT_EVENTS as int)
    &&& views(r.recent_user_explanations@) == recent_explanations(
        file_views(f.inputs@),
        RECENT_EXPLANATIONS as int,
    )
    &&& r.session_bullets@ == (match w.session {
        Some(s) => s.bullets@,
        None => Seq::empty(),
    })
    &&& pair_views(r.surface_summaries@) == summaries_of(
        file_views(f.surfaces@),
        f.surfaces@.len() as int,
    )
    &&& r.tool_call_count == w.tool_call_count
    &&& views(r.cmux_surface_order@) == titles(w.surfaces@)
    &&& r.user_ask == f.user_ask
}

// ---------------------------------------------------------------------------
// What becomes of the result
// ---------------------------------------------------------------------------

/// A task tracker owns the workspace's tasks.
pub open spec fn tracker_owned(w: WorkspaceState) -> bool {
    w.linear is Some || w.beads is Some
}

/// The rows of the workspace's current task section.
pub open spec fn current_tasks(w: WorkspaceState) -> Seq<ItemView> {
    match w.trajectory {
        Some(d) => rows_named(d@, SECTION_GOALS@),
        None => Seq::empty(),
    }
}

/// A regenerated document made fit for the workspace: it has all sections, and rows
/// that a task tracker owns stay as they are.
pub open spec fn fitted_doc(w: WorkspaceState, d: DocView) -> DocView {
    if tracker_owned(w) {
        with_section(with_canonical(d), SECTION_GOALS@, current_tasks(w))
    } else {
        with_canonical(d)
    }
}

/// The scheduler's state after one more event.
pub open spec fn counted(r: RegenSchedulerState) -> RegenSchedulerState {
    RegenSchedulerState {
        events_since_last_regen: (if r.events_since_last_regen < u32::MAX {
            r.events_since_last_regen + 1
        } else {
            u32::MAX as int
        }) as u32,
        ..r
    }
}

/// The scheduler's state after `n` more events.
pub open spec fn counted_times(r: RegenSchedulerState, n: nat) -> RegenSchedulerState
    decreases n,
{
    if n == 0 {
        r
    } else {
        counted(counted_times(r, (n - 1) as nat))
    }
}

/// The scheduler's state when a result cannot be taken: another may be started.
pub open spec fn refused(w: WorkspaceState) -> WorkspaceState {
    WorkspaceState { regen: RegenSchedulerState { regen_in_flight: false, ..w.regen }, ..w }
}

/// The workspace after it took a regenerated document.
pub open spec fn regenerated(w: WorkspaceState, doc: TrajectoryDoc, now: Moment) -> WorkspaceState {
    WorkspaceState {
        trajectory: Some(doc),
        regen: RegenSchedulerState {
            last_regen_at: Some(now),
            events_since_last_regen: 0,
            regen_in_flight: false,
        },
        ..w
    }
}

impl App {
    /// Counts an event of a workspace. The count stays at its largest value, which a
    /// forced regeneration sets.
    pub fn increment_regen_event_count(&mut self, uuid: &str)
        ensures
            old(self).well_formed() ==> final(self).well_formed(),
            only_workspaces(*old(self), *final(self)),
            final(self).workspaces@ == edited(
                old(self).workspaces@,
                uuid@,
                |w: WorkspaceState| (WorkspaceState { regen: counted(w.regen), ..w }),
            ),
    {
        if let Some(idx) = self.workspace_index_for(uuid) {
            let n: u32 = self.workspaces[idx].regen.events_since_last_regen;
            self.workspaces[idx].regen.events_since_last_regen = n.saturating_add(1);
        }
    }

    /// The workspaces that are due for regeneration.
    pub fn workspaces_due_for_regen(&self, now: Moment) -> (r: Vec<String>)
        ensures
            views(r@) == ids_where(
                self.workspaces@,
                |w: WorkspaceState| is_due(w, now),
                self.workspaces@.len() as int,
            ),
    {
        let ghost p = |w: WorkspaceState| is_due(w, now);
        let mut out: Vec<String> = Vec::new();
        let mut i: usize = 0;
        assert(views(out@) =~= Seq::<Seq<char>>::empty());
        while i < self.workspaces.len()
            invariant
                i <= self.workspaces@.len(),
                p == (|w: WorkspaceState| is_due(w, now)),
                views(out@) == ids_where(self.workspaces@, p, i as int),
            decreases self.workspaces@.len() - i,
        {
            if due(&self.workspaces[i], now) {
                let id = self.workspaces[i].workspace.uuid.clone();
                proof {
                    lemma_views_push(out@, id);
                }
                out.push(id);
            }
            i += 1;
        }
        out
    }

    /// Marks a workspace's regeneration as under way.
    pub fn mark_regen_in_flight(&mut self, uuid: &str)
        ensures
            old(self).well_formed() ==> final(self).well_formed(),
            only_workspaces(*old(self), *final(self)),
            final(self).workspaces@ == edited(
                old(self).workspaces@,
                uuid@,
                |w: WorkspaceState|
                    (WorkspaceState {
                        regen: RegenSchedulerState { regen_in_flight: true, ..w.regen },
                        ..w
                    }),
            ),
    {
        if let Some(idx) = self.workspace_index_for(uuid) {
            self.workspaces[idx].regen.regen_in_flight = true;
        }
    }

    /// Makes the selected workspace due for regeneration, whatever has happened.
    pub fn force_regen_selected_workspace(&mut self)
        ensures
            old(self).well_formed() ==> final(self).well_formed(),
            only_workspaces(*old(self), *final(self)),
            final(self).workspaces@ == (if old(self).selected < old(self).workspaces@.len() {
                edited(
                    old(self).workspaces@,
                    old(self).workspaces@[old(self).selected as int].workspace.uuid@,
                    |w: WorkspaceState| (WorkspaceState { regen: forced(w.regen), ..w }),
                )
            } else {
                old(self).workspaces@
            }),
    {
        let uuid = match self.selected_workspace() {
            Some(ws) => ws.workspace.uuid.clone(),
            None => {
                return;
            },
        };
        if let Some(idx) = self.workspace_index_for(uuid.as_str()) {
            self.workspaces[idx].regen.events_since_last_regen = u32::MAX;
            self.workspaces[idx].regen.last_regen_at = None;
        }
    }

    /// What a regeneration of a workspace starts from; nothing without a document.
    pub fn build_regen_inputs(&self, uuid: &str, files: RegenFiles) -> (r: Option<RegenInputs>)
        ensures
            match index_of(self.workspaces@, uuid@) {
                Some(i) => match r {
                    Some(inputs) => self.workspaces@[i].trajectory is Some && gathers(
                        self.workspaces@[i],
                        files,
                        inputs,
                    ),
                    None => self.workspaces@[i].trajectory is None,
                },
                None => r is None,
            },
    {
        let idx: usize = match self.workspace_index_for(uuid) {
            Some(i) => i,
            None => {
                return None;
            },
        };
        let ws = &self.workspaces[idx];
        if ws.trajectory.is_none() {
            return None;
        }
        let bullets = match &ws.session {
            Some(s) => clone_strings(&s.bullets),
            None => Vec::new(),
        };
        assert(ws.session is None ==> bullets@ =~= Seq::<String>::empty());
        Some(
            RegenInputs {
                workspace_name: ws.workspace.name.clone(),
                current_trajectory: files.markdown,
                recent_events: last_texts(&files.events, RECENT_EVENTS),
                recent_user_explanations: load_recent_user_explanations(
                    &files.inputs,
                    RECENT_EXPLANATIONS,
                ),
                session_bullets: bullets,
                surface_summaries: load_surface_summaries(&files.surfaces),
                tool_call_count: ws.tool_call_count,
                cmux_surface_order: surface_titles(&ws.surfaces),
                user_ask: files.user_ask,
            },
        )
    }

    /// Makes a regenerated document fit for a workspace. Returns nothing when the
    /// workspace is unknown, or is being edited; another regeneration may then be
    /// started.
    pub fn fit_regenerated_trajectory(&mut self, uuid: &str, doc: TrajectoryDoc) -> (r: Option<
        TrajectoryDoc,
    >)
        ensures
            old(self).well_formed() ==> final(self).well_formed(),
            only_workspaces(*old(self), *final(self)),
            final(self).workspaces@ == edited(
                old(self).workspaces@,
                uuid@,
                |w: WorkspaceState|
                    if editing(w) {
                        refused(w)
                    } else {
                        w
                    },
            ),
            match index_of(old(self).workspaces@, uuid@) {
                Some(i) => match r {
                    Some(d) => !editing(old(self).workspaces@[i]) && d@ == fitted_doc(
                        old(self).workspaces@[i],
                        doc@,
                    ),
                    None => editing(old(self).workspaces@[i]),
                },
                None => r is None,
            },
    {
        let ghost before = self.workspaces@;
        proof {
            lemma_last_index(before, uuid@, before.len() as int);
        }
        let idx: usize = match self.workspace_index_for(uuid) {
            Some(i) => i,
            None => {
                return None;
            },
        };
        if is_editing(&self.workspaces[idx]) {
            self.workspaces[idx].regen.regen_in_flight = false;
            return None;
        }
        assert(before.update(idx as int, before[idx as int]) =~= before);
        let mut doc = doc;
        doc.ensure_sections();
        let ws = &self.workspaces[idx];
        if ws.linear.is_some() || ws.beads.is_some() {
            let rows: Vec<Item> = match &ws.trajectory {
                Some(d) => d.rows(SECTION_GOALS),
                None => Vec::new(),
            };
            assert(item_views(rows@) =~= current_tasks(*ws));
            doc.replace_section_items(SECTION_GOALS, rows);
        }
        Some(doc)
    }

    /// Takes a regenerated document, unless the workspace is being edited; then
    /// another regeneration may be started.
    pub fn apply_regenerated_trajectory(&mut self, uuid: &str, doc: TrajectoryDoc, now: Moment)
        ensures
            old(self).well_formed() ==> final(self).well_formed(),
            only_workspaces(*old(self), *final(self)),
            final(self).workspaces@ == edited(
                old(self).workspaces@,
                uuid@,
                |w: WorkspaceState|
                    if editing(w) {
                        refused(w)
                    } else {
                        regenerated(w, doc, now)
                    },
            ),
    {
        if let Some(idx) = self.workspace_index_for(uuid) {
            if is_editing(&self.workspaces[idx]) {
                self.workspaces[idx].regen.regen_in_flight = false;
            } else {
                self.workspaces[idx].trajectory = Some(doc);
                self.workspaces[idx].regen = RegenSchedulerState {
                    last_regen_at: Some(now),
                    events_since_last_regen: 0,
                    regen_in_flight: false,
                };
            }
        }
    }
}

// ---------------------------------------------------------------------------
// What is learned when a workspace is dismissed
// ---------------------------------------------------------------------------

/// Files that the learning step reads.
pub struct LearningFiles {
    pub project: Option<String>,
    pub trajectory: Option<String>,
    /// The histories directory: `trajectory-N.md`.
    pub histories: Vec<NamedFile>,
    /// The inputs directory: `N.txt`.
    pub inputs: Vec<NamedFile>,
    pub events: Option<String>,
    /// The surfaces directory: logs and summaries.
    pub surfaces: Vec<NamedFile>,
    /// The session histories that the surfaces directory points to.
    pub sessions: Vec<String>,
}

/// What the learning step starts from.
pub struct LearningInputs {
    pub workspace_uuid: String,
    pub workspace_name: String,
    pub project: String,
    pub duration: String,
    pub surfaces_summary: Vec<String>,
    pub final_trajectory: String,
    pub history_snapshots: Vec<String>,
    pub inputs: Vec<String>,
    pub events_jsonl: String,
    pub session_history_files: Vec<String>,
    pub shell_logs: Vec<String>,
    pub surface_summaries: Vec<String>,
}

/// A text, or another one where there is none.
pub open spec fn text_or(o: Option<String>, other: Seq<char>) -> Seq<char> {
    match o {
        Some(s) => s@,
        None => other,
    }
}

fn string_or(o: Option<String>, other: &str) -> (r: String)
    ensures
        r@ == text_or(o, other@),
{
    match o {
        Some(s) => s,
        None => String::from_str(other),
    }
}

/// The trimmed texts among the first `n` that are not blank.
pub open spec fn trimmed(s: Seq<Seq<char>>, n: int) -> Seq<Seq<char>>
    decreases n,
{
    if n <= 0 {
        Seq::empty()
    } else if trim(s[n - 1]).len() > 0 {
        trimmed(s, n - 1).push(trim(s[n - 1]))
    } else {
        trimmed(s, n - 1)
    }
}

fn trim_texts(v: &Vec<String>) -> (r: Vec<String>)
    ensures
        views(r@) == trimmed(views(v@), v@.len() as int),
{
    let ghost all = views(v@);
    let mut out: Vec<String> = Vec::new();
    let mut i: usize = 0;
    assert(views(out@) =~= Seq::<Seq<char>>::empty());
    while i < v.len()
        invariant
            i <= v@.len(),
            all == views(v@),
            views(out@) == trimmed(all, i as int),
        decreases v@.len() - i,
    {
        let t = trim_str(v[i].as_str());
        if t.as_str().unicode_len() > 0 {
            proof {
                lemma_views_push(out@, t);
            }
            out.push(t);
        }
        i += 1;
    }
    out
}

/// The session logs that a surfaces directory points to: the trimmed contents of
/// its pointer files.
pub open spec fn pointed(files: Seq<crate::files::FileView>) -> Seq<Seq<char>> {
    contents_of(files, "session-path"@, files.len() as int).map_values(|s: Seq<char>| trim(s))
}

/// The session logs that a surfaces directory points to.
pub fn session_paths(files: &Vec<NamedFile>) -> (r: Vec<String>)
    ensures
        views(r@) == pointed(file_views(files@)),
{
    let found = contents_with_extension(files, "session-path");
    let ghost want = pointed(file_views(files@));
    let mut out: Vec<String> = Vec::new();
    let mut i: usize = 0;
    while i < found.len()
        invariant
            i <= found@.len(),
            want == views(found@).map_values(|s: Seq<char>| trim(s)),
            views(out@) =~= want.take(i as int),
        decreases found@.len() - i,
    {
        let t = trim_str(found[i].as_str());
        proof {
            lemma_views_push(out@, t);
        }
        out.push(t);
        i += 1;
    }
    assert(views(out@) =~= want);
    out
}

/// `r` is what learning from the workspace `uuid` starts from; `w` is the workspace
/// where it is still known.
pub open spec fn learns(
    uuid: Seq<char>,
    w: Option<WorkspaceState>,
    f: LearningFiles,
    r: LearningInputs,
) -> bool {
    let name = match w {
        Some(w) => w.workspace.name@,
        None => uuid,
    };
    let surfaces = file_views(f.surfaces@);
    let summaries = contents_of(surfaces, "summary"@, surfaces.len() as int);
    &&& r.workspace_uuid@ == uuid
    &&& r.workspace_name@ == name
    &&& r.project@ == text_or(f.project, name)
    &&& r.duration@ == (match w {
        Some(w) => text_or(w.screen_insights.duration, "unknown"@),
        None => "unknown"@,
    })
    &&& views(r.surfaces_summary@) == (match w {
        Some(w) => titles(w.surfaces@),
        None => Seq::empty(),
    })
    &&& r.final_trajectory@ == text_or(f.trajectory, ""@)
    &&& views(r.history_snapshots@) == contents_in_order(
        file_views(f.histories@),
        "trajectory-"@,
        None,
    )
    &&& views(r.inputs@) == contents_in_order(file_views(f.inputs@), ""@, Some("txt"@))
    &&& r.events_jsonl@ == text_or(f.events, ""@)
    &&& r.session_history_files == f.sessions
    &&& views(r.shell_logs@) == contents_of(surfaces, "log"@, surfaces.len() as int)
    &&& views(r.surface_summaries@) == trimmed(summaries, summaries.len() as int)
}

impl App {
    /// What learning from a workspace starts from.
    pub fn build_learning_inputs(&self, uuid: &str, files: LearningFiles) -> (r: LearningInputs)
        ensures
            learns(
                uuid@,
                (match index_of(self.workspaces@, uuid@) {
                    Some(i) => Some(self.workspaces@[i]),
                    None => None,
                }),
                files,
                r,
            ),
    {
        let ws: Option<&WorkspaceState> = match self.workspace_index_for(uuid) {
            Some(i) => Some(&self.workspaces[i]),
            None => None,
        };
        let workspace_name = match ws {
            Some(w) => w.workspace.name.clone(),
            None => String::from_str(uuid),
        };
        let duration = match ws {
            Some(w) => string_or(clone_opt(&w.screen_insights.duration), "unknown"),
            None => String::from_str("unknown"),
        };
        let surfaces_summary = match ws {
            Some(w) => surface_titles(&w.surfaces),
            None => Vec::new(),
        };
        assert(ws is None ==> views(surfaces_summary@) =~= Seq::<Seq<char>>::empty());
        let project = string_or(files.project, workspace_name.as_str());
        LearningInputs {
            workspace_uuid: String::from_str(uuid),
            workspace_name,
            project,
            duration,
            surfaces_summary,
            final_trajectory: string_or(files.trajectory, ""),
            history_snapshots: numbered_contents(&files.histories, "trajectory-", None),
            inputs: numbered_contents(&files.inputs, "", Some("txt")),
            events_jsonl: string_or(files.events, ""),
            session_history_files: files.sessions,
            shell_logs: contents_with_extension(&files.surfaces, "log"),
            surface_summaries: trim_texts(&contents_with_extension(&files.surfaces, "summary")),
        }
    }
}

// ---------------------------------------------------------------------------
// Laws
// ---------------------------------------------------------------------------

/// A forced regeneration is due at once, unless the workspace has no document, is
/// being edited or is being regenerated.
pub proof fn a_forced_regeneration_is_due(w: WorkspaceState, now: Moment)
    requires
        w.trajectory is Some,
        !editing(w),
        !w.regen.regen_in_flight,
    ensures
        is_due((WorkspaceState { regen: forced(w.regen), ..w }), now),
{
}

/// A forced regeneration stays due, however many events follow, as long as the
/// workspace is neither edited nor regenerated.
pub proof fn a_forced_regeneration_outlasts_events(w: WorkspaceState, events: nat, now: Moment)
    requires
        w.trajectory is Some,
        !editing(w),
        !w.regen.regen_in_flight,
    ensures
        counted_times(forced(w.regen), events) == forced(w.regen),
        is_due((WorkspaceState { regen: counted_times(forced(w.regen), events), ..w }), now),
    decreases events,
{
    if events > 0 {
        a_forced_regeneration_outlasts_events(w, (events - 1) as nat, now);
    }
}

/// A workspace whose regeneration was forced is listed as due, also when an event
/// comes in between.
pub proof fn a_forced_workspace_is_listed(s: Seq<WorkspaceState>, uuid: Seq<char>, now: Moment)
    requires
        index_of(s, uuid) is Some,
        s[index_of(s, uuid).unwrap()].trajectory is Some,
        !editing(s[index_of(s, uuid).unwrap()]),
        !s[index_of(s, uuid).unwrap()].regen.regen_in_flight,
    ensures
        ({
            let urged = edited(
                s,
                uuid,
                |w: WorkspaceState| (WorkspaceState { regen: forced(w.regen), ..w }),
            );
            let later = edited(
                urged,
                uuid,
                |w: WorkspaceState| (WorkspaceState { regen: counted(w.regen), ..w }),
            );
            let due = |w: WorkspaceState| is_due(w, now);
            &&& ids_where(urged, due, urged.len() as int).contains(uuid)
            &&& ids_where(later, due, later.len() as int).contains(uuid)
        }),
{
    let due = |w: WorkspaceState| is_due(w, now);
    let urged = edited(
        s,
        uuid,
        |w: WorkspaceState| (WorkspaceState { regen: forced(w.regen), ..w }),
    );
    let later = edited(
        urged,
        uuid,
        |w: WorkspaceState| (WorkspaceState { regen: counted(w.regen), ..w }),
    );
    let i = index_of(s, uuid).unwrap();
    lemma_last_index(s, uuid, s.len() as int);
    lemma_last_index(urged, uuid, urged.len() as int);
    assert(urged[i].workspace.uuid@ == uuid);
    assert(forall|j: int| i < j < urged.len() ==> (#[trigger] urged[j]) == s[j]);
    assert(index_of(urged, uuid) == Some(i));
    every_chosen_workspace_is_listed(urged, due, urged.len() as int, i);
    every_chosen_workspace_is_listed(later, due, later.len() as int, i);
}

/// An event never makes a workspace that is due wait.
pub proof fn an_event_keeps_a_workspace_due(w: WorkspaceState, now: Moment)
    requires
        is_due(w, now),
    ensures
        is_due((WorkspaceState { regen: counted(w.regen), ..w }), now),
{
}

/// Nothing is regenerated under the user's hands, nor twice at once.
pub proof fn editing_holds_off_regeneration(w: WorkspaceState, now: Moment)
    requires
        editing(w) || w.regen.regen_in_flight,
    ensures
        !is_due(w, now),
{
}

/// A workspace that finished its missions is not regenerated for want of one.
pub proof fn finished_missions_are_not_reopened(w: WorkspaceState, now: Moment)
    requires
        w.trajectory is Some,
        w.trajectory.unwrap()@.mission_history.len() > 0,
        w.regen.events_since_last_regen == 0,
    ensures
        !is_due(w, now),
{
}

/// After a regeneration was taken, the next one waits for events, unless there is
/// still no mission.
pub proof fn a_taken_result_resets_the_scheduler(
    w: WorkspaceState,
    doc: TrajectoryDoc,
    now: Moment,
    later: Moment,
)
    requires
        !no_mission(doc@),
    ensures
        !is_due(regenerated(w, doc, now), later),
{
}

/// Rows that a task tracker owns survive a regeneration.
pub proof fn tracker_rows_survive_regeneration(w: WorkspaceState, d: DocView)
    requires
        tracker_owned(w),
    ensures
        rows_named(fitted_doc(w, d), SECTION_GOALS@) == current_tasks(w),
{
    replaced_rows_are_found(
        with_canonical(d),
        SECTION_GOALS@,
        current_tasks(w),
        SECTION_MISSION@,
    );
}

} // verus!
