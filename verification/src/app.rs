//! The dashboard's state and what events do to it.
use crate::agents::AgentTable;
use crate::assoc::Assoc;
use crate::command::InputMode;
use crate::intent::ConversationIntent;
use crate::screen::{parse_screen_insights, reads, tasks_total};
use crate::search::{join, join_strings};
use crate::text::{
    chars_of, clone_strings, concat2, concat3, deep, lemma_views_push, lines, lines_of, opt_view,
    same, string_from, trim, trim_all, trim_chars, views,
};
use crate::trajectory::{section_is, TrajectoryDoc, SECTION_CURRENT_SURFACES};
use crate::trajectory_edit::EditMode;
use crate::workspace::{Focus, ScreenClassification, SessionFile, Summary, WorkspaceState};
use vstd::prelude::*;

verus! {

// ---------------------------------------------------------------------------
// Types
// ---------------------------------------------------------------------------

/// An event that an agent's hook reported.
#[derive(Debug, Clone, PartialEq, Eq)]
pub struct AgentEvent {
    pub session_id: String,
    pub workspace_id: String,
    pub event_name: String,
}

/// A screen capture and, where one was made, its classification.
#[derive(Debug, Clone)]
pub struct ScreenUpdate {
    pub workspace_uuid: String,
    pub screen: Option<String>,
    pub classification: Option<ScreenClassification>,
}

/// A capture of a remote surface.
#[derive(Debug, Clone)]
pub struct RemoteGrabUpdate {
    pub workspace_uuid: String,
    pub surface_ref: String,
    pub raw: String,
}

/// An intent that was inferred for a remote surface.
#[derive(Debug, Clone)]
pub struct RemoteIntentUpdate {
    pub surface_ref: String,
    pub intent: ConversationIntent,
}

/// The state of the dashboard.
pub struct App {
    pub workspaces: Vec<WorkspaceState>,
    pub selected: usize,
    pub should_quit: bool,
    pub focus: Focus,
    pub detail_scroll: u16,
    /// Machine-wide configuration or credential warning.
    pub global_warning: Option<String>,
    /// Health warning of the mesh reader.
    pub mesh_warning: Option<String>,
    /// The workspace that each session belongs to.
    pub session_to_workspace: Assoc<String>,
    /// The progress that each session file recorded when it was last read.
    pub bullets_seen: Assoc<Vec<String>>,
    /// Counts full refreshes; Beads data gathered before one is out of date.
    pub beads_generation: u64,
    /// The workspace whose dismissal waits for confirmation.
    pub pending_dismissal: Option<String>,
    /// Whether keys go to the panes or to the command bar.
    pub input_mode: InputMode,
    /// Inferred intents of remote surfaces.
    pub remote_intents: Assoc<ConversationIntent>,
    /// Counts the rounds of remote captures.
    pub remote_grab_tick: u64,
}

// ---------------------------------------------------------------------------
// Workspaces by identity
// ---------------------------------------------------------------------------

/// The last of the first `n` workspaces with the given identity.
pub open spec fn last_index(s: Seq<WorkspaceState>, uuid: Seq<char>, n: int) -> Option<int>
    decreases n,
{
    if n <= 0 {
        None
    } else if s[n - 1].workspace.uuid@ == uuid {
        Some(n - 1)
    } else {
        last_index(s, uuid, n - 1)
    }
}

/// The workspace with the given identity.
pub open spec fn index_of(s: Seq<WorkspaceState>, uuid: Seq<char>) -> Option<int> {
    last_index(s, uuid, s.len() as int)
}

/// The position that a search finds exists and bears the identity.
pub proof fn lemma_last_index(s: Seq<WorkspaceState>, uuid: Seq<char>, n: int)
    requires
        0 <= n <= s.len(),
    ensures
        match last_index(s, uuid, n) {
            Some(i) => 0 <= i < n && s[i].workspace.uuid@ == uuid && (forall|j: int|
                i < j < n ==> (#[trigger] s[j]).workspace.uuid@ != uuid),
            None => forall|j: int| 0 <= j < n ==> (#[trigger] s[j]).workspace.uuid@ != uuid,
        },
    decreases n,
{
    if n > 0 && s[n - 1].workspace.uuid@ != uuid {
        lemma_last_index(s, uuid, n - 1);
    }
}

/// The workspaces with the identified one changed.
pub open spec fn edited(
    s: Seq<WorkspaceState>,
    uuid: Seq<char>,
    f: spec_fn(WorkspaceState) -> WorkspaceState,
) -> Seq<WorkspaceState> {
    match index_of(s, uuid) {
        Some(i) => s.update(i, f(s[i])),
        None => s,
    }
}

/// The workspaces with the selected one changed.
pub open spec fn selected_edited(
    s: Seq<WorkspaceState>,
    selected: int,
    f: spec_fn(WorkspaceState) -> WorkspaceState,
) -> Seq<WorkspaceState> {
    if 0 <= selected < s.len() {
        s.update(selected, f(s[selected]))
    } else {
        s
    }
}

/// Nothing but the workspaces differs.
pub open spec fn only_workspaces(a: App, b: App) -> bool {
    b == (App { workspaces: b.workspaces, ..a })
}

/// The detail pane's offset three lines further down.
pub open spec fn further_down(offset: int) -> int {
    if offset + 3 <= u16::MAX {
        offset + 3
    } else {
        u16::MAX as int
    }
}

/// The detail pane's offset three lines further up.
pub open spec fn further_up(offset: int) -> int {
    if offset >= 3 {
        offset - 3
    } else {
        0
    }
}

/// A workspace had enough tool calls, and has a session to sum up.
pub open spec fn summary_is_due(w: WorkspaceState, threshold: int) -> bool {
    w.tool_call_count >= threshold && w.session is Some
}

/// The user is writing in the workspace's document.
pub open spec fn inserting(ws: WorkspaceState) -> bool {
    match ws.edit_state {
        Some(s) => s.mode is Insert,
        None => false,
    }
}

/// The workspace's document must not be replaced: the user is writing in it, or a
/// checked mission waits to change places.
pub open spec fn editing(ws: WorkspaceState) -> bool {
    inserting(ws) || ws.missions_pending
}

/// Whether the user is writing in the workspace's document.
pub fn is_inserting(ws: &WorkspaceState) -> (r: bool)
    ensures
        r == inserting(*ws),
{
    match &ws.edit_state {
        Some(s) => match s.mode {
            EditMode::Insert { .. } => true,
            EditMode::Nav => false,
        },
        None => false,
    }
}

/// Whether the workspace's document must not be replaced.
pub fn is_editing(ws: &WorkspaceState) -> (r: bool)
    ensures
        r == editing(*ws),
{
    is_inserting(ws) || ws.missions_pending
}

// ---------------------------------------------------------------------------
// The highlighted surface
// ---------------------------------------------------------------------------

/// The surface whose row is under the cursor.
pub open spec fn highlighted(ws: WorkspaceState) -> Option<Seq<char>> {
    match (ws.trajectory, ws.edit_state) {
        (Some(doc), Some(state)) => {
            let d = doc@;
            let s = state.cursor_section as int;
            let i = state.cursor_item as int;
            if section_is(d, s, SECTION_CURRENT_SURFACES@) && i < d.sections[s].items.len() {
                d.sections[s].items[i].surface_id
            } else {
                None
            }
        },
        _ => None,
    }
}

/// The surface whose row is under the cursor.
pub fn highlighted_surface_id(ws: &WorkspaceState) -> (r: Option<String>)
    ensures
        opt_view(r) == highlighted(*ws),
{
    match (&ws.trajectory, &ws.edit_state) {
        (Some(doc), Some(state)) => {
            if !doc.is_section(state.cursor_section, SECTION_CURRENT_SURFACES) {
                return None;
            }
            let items = &doc.sections[state.cursor_section].items;
            if state.cursor_item >= items.len() {
                return None;
            }
            crate::text::clone_opt(&items[state.cursor_item].surface_id)
        },
        _ => None,
    }
}

/// The repository that the highlighted surface works in.
pub open spec fn highlighted_repo(ws: WorkspaceState) -> Option<Seq<char>> {
    match (highlighted(ws), ws.beads) {
        (Some(id), Some(beads)) => opt_view(beads.repo_by_surface_ref.lookup(id)),
        _ => None,
    }
}

/// The repository that the highlighted surface works in.
pub fn highlighted_surface_repo(ws: &WorkspaceState) -> (r: Option<String>)
    ensures
        opt_view(r) == highlighted_repo(*ws),
{
    match (highlighted_surface_id(ws), &ws.beads) {
        (Some(id), Some(beads)) => match beads.repo_by_surface_ref.get(id.as_str()) {
            Some(repo) => Some(repo.clone()),
            None => None,
        },
        _ => None,
    }
}

// ---------------------------------------------------------------------------
// Notes
// ---------------------------------------------------------------------------

/// Unicode calls the character a letter or a digit.
pub uninterp spec fn alphanumeric(c: char) -> bool;

/// `char::is_alphanumeric`: the result is the same for the same character. Which
/// characters they are is left to the Unicode tables of the standard library.
#[verifier::external_body]
fn is_alphanumeric(c: char) -> (r: bool)
    ensures
        r == alphanumeric(c),
{
    c.is_alphanumeric()
}

/// A character as it stands in a file name.
pub open spec fn slug_char(c: char, word: bool) -> char {
    if word || c == '-' || c == '_' {
        c
    } else {
        '-'
    }
}

/// A name with every character that is no letter, digit, `-` or `_` replaced; `words`
/// tells which are letters or digits.
pub open spec fn dashed(name: Seq<char>, words: Seq<bool>) -> Seq<char> {
    Seq::new(name.len(), |i: int| slug_char(name[i], words[i]))
}

/// Which characters are letters or digits.
pub open spec fn word_chars(name: Seq<char>) -> Seq<bool> {
    name.map_values(|c: char| alphanumeric(c))
}

/// A name as a file name, given which characters are letters or digits.
pub open spec fn slug_with(name: Seq<char>, words: Seq<bool>) -> Seq<char> {
    undash_end(undash_start(dashed(name, words)))
}

/// A text without the dashes at its start.
pub open spec fn undash_start(s: Seq<char>) -> Seq<char>
    decreases s.len(),
{
    if s.len() > 0 && s[0] == '-' {
        undash_start(s.skip(1))
    } else {
        s
    }
}

/// A text without the dashes at its end.
pub open spec fn undash_end(s: Seq<char>) -> Seq<char>
    decreases s.len(),
{
    if s.len() > 0 && s.last() == '-' {
        undash_end(s.drop_last())
    } else {
        s
    }
}

/// A workspace's name as a file name.
pub open spec fn slug(name: Seq<char>) -> Seq<char> {
    slug_with(name, word_chars(name))
}

/// A text without the dashes around it.
pub fn trim_dashes(v: &Vec<char>) -> (r: String)
    ensures
        r@ == undash_end(undash_start(v@)),
{
    let n: usize = v.len();
    let mut from: usize = 0;
    assert(v@.skip(0) =~= v@);
    while from < n && v[from] == '-'
        invariant
            n == v@.len(),
            from <= n,
            undash_start(v@) == undash_start(v@.skip(from as int)),
        decreases n - from,
    {
        assert(v@.skip(from as int).skip(1) =~= v@.skip(from + 1));
        from += 1;
    }
    let ghost rest = v@.skip(from as int);
    let mut to: usize = n;
    assert(v@.subrange(from as int, to as int) =~= rest);
    while to > from && v[to - 1] == '-'
        invariant
            n == v@.len(),
            from <= to <= n,
            undash_end(rest) == undash_end(v@.subrange(from as int, to as int)),
        decreases to - from,
    {
        assert(v@.subrange(from as int, to as int).drop_last() =~= v@.subrange(
            from as int,
            to - 1,
        ));
        to -= 1;
    }
    crate::text::string_of(v, from, to)
}

/// A name as a file name, given which characters are letters or digits.
pub fn slug_of(name: &Vec<char>, words: &Vec<bool>) -> (r: String)
    requires
        words@.len() == name@.len(),
    ensures
        r@ == slug_with(name@, words@),
{
    let mut out: Vec<char> = Vec::new();
    let mut i: usize = 0;
    while i < name.len()
        invariant
            i <= name@.len(),
            words@.len() == name@.len(),
            out@ =~= dashed(name@, words@).take(i as int),
        decreases name@.len() - i,
    {
        let c = name[i];
        out.push(
            if words[i] || c == '-' || c == '_' {
                c
            } else {
                '-'
            },
        );
        i += 1;
    }
    assert(out@ =~= dashed(name@, words@));
    trim_dashes(&out)
}

/// A workspace's name as a file name.
pub fn workspace_slug(name: &str) -> (r: String)
    ensures
        r@ == slug(name@),
{
    let v = chars_of(name);
    let mut words: Vec<bool> = Vec::new();
    let mut i: usize = 0;
    while i < v.len()
        invariant
            i <= v@.len(),
            words@ =~= word_chars(v@).take(i as int),
        decreases v@.len() - i,
    {
        words.push(is_alphanumeric(v[i]));
        i += 1;
    }
    assert(words@ =~= word_chars(v@));
    slug_of(&v, &words)
}

/// A file name never starts or ends with a dash.
pub proof fn slugs_have_no_outer_dashes(name: Seq<char>)
    ensures
        slug(name).len() > 0 ==> slug(name)[0] != '-' && slug(name).last() != '-',
{
    let d = dashed(name, word_chars(name));
    lemma_undash_start(d);
    lemma_undash_end(undash_start(d));
}

proof fn lemma_undash_start(s: Seq<char>)
    ensures
        undash_start(s).len() > 0 ==> undash_start(s)[0] != '-',
    decreases s.len(),
{
    if s.len() > 0 && s[0] == '-' {
        lemma_undash_start(s.skip(1));
    }
}

proof fn lemma_undash_end(s: Seq<char>)
    ensures
        undash_end(s).len() > 0 ==> undash_end(s).last() != '-',
        undash_end(s).len() > 0 ==> undash_end(s)[0] == s[0],
    decreases s.len(),
{
    if s.len() > 0 && s.last() == '-' {
        lemma_undash_end(s.drop_last());
    }
}

/// A text counts only when there is something in it.
pub open spec fn useful(text: Option<String>) -> Option<String> {
    match text {
        Some(n) => if trim(n@).len() > 0 {
            Some(n)
        } else {
            None
        },
        None => None,
    }
}

/// A text, unless it is blank.
pub fn nonblank(text: Option<String>) -> (r: Option<String>)
    ensures
        r == useful(text),
{
    match text {
        Some(t) => {
            if trim_chars(&chars_of(t.as_str())).len() > 0 {
                Some(t)
            } else {
                None
            }
        },
        None => None,
    }
}

/// The notes of the workspace with the given name, as read from the files.
pub fn workspace_notes(name: &str, files: &Assoc<String>) -> (r: Option<String>)
    ensures
        r == useful(files.lookup(name@)),
{
    nonblank(
        match files.get(name) {
            Some(n) => Some(n.clone()),
            None => None,
        },
    )
}

// ---------------------------------------------------------------------------
// The last lines of a screen
// ---------------------------------------------------------------------------

/// The lines of a screen that are shown: its last fifteen.
pub open spec fn shown_lines(screen: Seq<char>) -> Seq<Seq<char>> {
    let ls = lines(screen);
    ls.skip(
        if ls.len() > 15 {
            ls.len() - 15
        } else {
            0
        },
    )
}

fn preview_of(screen: &str) -> (r: String)
    ensures
        r@ == join(shown_lines(screen@), "\n"@),
{
    let ls = lines_of(&chars_of(screen));
    let n: usize = ls.len();
    let start: usize = n.saturating_sub(15);
    let mut out: Vec<String> = Vec::new();
    let mut i: usize = start;
    assert(views(out@) =~= Seq::<Seq<char>>::empty());
    while i < n
        invariant
            n == ls@.len(),
            start <= i <= n,
            views(out@) =~= deep(ls@).subrange(start as int, i as int),
        decreases n - i,
    {
        let s = string_from(&ls[i]);
        proof {
            lemma_views_push(out@, s);
        }
        out.push(s);
        i += 1;
    }
    assert(views(out@) =~= shown_lines(screen@));
    join_strings(&out, "\n")
}

// ---------------------------------------------------------------------------
// The line of identities and warnings
// ---------------------------------------------------------------------------

/// The first window among the workspaces from `i` on.
pub open spec fn first_window(s: Seq<WorkspaceState>, i: int) -> Option<Seq<char>>
    decreases s.len() - i,
{
    if i < 0 || i >= s.len() {
        None
    } else if s[i].workspace.window_id is Some {
        opt_view(s[i].workspace.window_id)
    } else {
        first_window(s, i + 1)
    }
}

/// One part when there is a text for it.
pub open spec fn part(prefix: Seq<char>, text: Option<Seq<char>>) -> Seq<Seq<char>> {
    match text {
        Some(t) => seq![prefix + t],
        None => Seq::empty(),
    }
}

/// The parts of the line: surface, workspace, window and the two warnings.
pub open spec fn info_parts(app: App) -> Seq<Seq<char>> {
    let ws: Option<WorkspaceState> = if app.selected < app.workspaces@.len() {
        Some(app.workspaces@[app.selected as int])
    } else {
        None
    };
    let surface = match ws {
        Some(w) if app.focus == Focus::Detail => highlighted(w),
        _ => None,
    };
    let identity = match ws {
        Some(w) => Some(w.workspace.uuid@),
        None => None,
    };
    part("surface "@, surface) + part("workspace "@, identity) + part(
        "window "@,
        first_window(app.workspaces@, 0),
    ) + part("⚠ "@, opt_view(app.global_warning)) + part("⚠ "@, opt_view(app.mesh_warning))
}

fn push_part(parts: &mut Vec<String>, prefix: &str, text: &Option<String>)
    ensures
        views(final(parts)@) == views(old(parts)@) + part(prefix@, opt_view(*text)),
{
    let ghost before = views(parts@);
    if let Some(t) = text {
        let s = concat2(prefix, t.as_str());
        proof {
            lemma_views_push(parts@, s);
        }
        parts.push(s);
    }
    assert(views(parts@) =~= before + part(prefix@, opt_view(*text)));
}

impl App {
    /// An empty dashboard.
    pub fn new() -> (r: Self)
        ensures
            r.workspaces@.len() == 0,
            r.selected == 0,
            !r.should_quit,
            r.focus == Focus::Sidebar,
            r.detail_scroll == 0,
            r.global_warning is None,
            r.mesh_warning is None,
            r.session_to_workspace.entries@.len() == 0,
            r.bullets_seen.entries@.len() == 0,
            r.beads_generation == 0,
            r.pending_dismissal is None,
            r.input_mode is Normal,
            r.remote_intents.entries@.len() == 0,
            r.remote_grab_tick == 0,
            r.well_formed(),
    {
        App {
            workspaces: Vec::new(),
            selected: 0,
            should_quit: false,
            focus: Focus::Sidebar,
            detail_scroll: 0,
            global_warning: None,
            mesh_warning: None,
            session_to_workspace: Assoc::new(),
            bullets_seen: Assoc::new(),
            beads_generation: 0,
            pending_dismissal: None,
            input_mode: InputMode::Normal,
            remote_intents: Assoc::new(),
            remote_grab_tick: 0,
        }
    }

    /// No table holds a key twice.
    pub open spec fn well_formed(self) -> bool {
        &&& self.session_to_workspace.well_formed()
        &&& self.bullets_seen.well_formed()
        &&& self.remote_intents.well_formed()
        &&& forall|i: int|
            0 <= i < self.workspaces@.len() ==> (
            #[trigger] self.workspaces@[i]).remote_surfaces.well_formed()
    }

    /// The position of a workspace.
    pub fn workspace_index_for(&self, uuid: &str) -> (r: Option<usize>)
        ensures
            match r {
                Some(i) => index_of(self.workspaces@, uuid@) == Some(i as int) && i
                    < self.workspaces@.len() && self.workspaces@[i as int].workspace.uuid@ == uuid@,
                None => index_of(self.workspaces@, uuid@) is None,
            },
    {
        let mut n: usize = self.workspaces.len();
        while n > 0
            invariant
                n <= self.workspaces@.len(),
                index_of(self.workspaces@, uuid@) == last_index(self.workspaces@, uuid@, n as int),
            decreases n,
        {
            if same(self.workspaces[n - 1].workspace.uuid.as_str(), uuid) {
                return Some(n - 1);
            }
            n -= 1;
        }
        None
    }

    /// Records an agent's event: its session belongs to its workspace, which has
    /// one more tool call.
    pub fn handle_agent_event(&mut self, event: &AgentEvent)
        requires
            old(self).session_to_workspace.well_formed(),
            match index_of(old(self).workspaces@, event.workspace_id@) {
                Some(i) => old(self).workspaces@[i].tool_call_count < u32::MAX,
                None => true,
            },
        ensures
            old(self).well_formed() ==> final(self).well_formed(),
            *final(self) == (App {
                workspaces: final(self).workspaces,
                session_to_workspace: final(self).session_to_workspace,
                ..*old(self)
            }),
            final(self).session_to_workspace.well_formed(),
            opt_view(final(self).session_to_workspace.lookup(event.session_id@)) == Some(
                event.workspace_id@,
            ),
            forall|k: Seq<char>|
                k != event.session_id@ ==> #[trigger] final(self).session_to_workspace.lookup(k)
                    == old(self).session_to_workspace.lookup(k),
            final(self).workspaces@ == edited(
                old(self).workspaces@,
                event.workspace_id@,
                |w: WorkspaceState|
                    (WorkspaceState { tool_call_count: (w.tool_call_count + 1) as u32, ..w }),
            ),
    {
        self.session_to_workspace.insert(event.session_id.clone(), event.workspace_id.clone());
        if let Some(idx) = self.workspace_index_for(event.workspace_id.as_str()) {
            let n: u32 = self.workspaces[idx].tool_call_count;
            self.workspaces[idx].tool_call_count = n + 1;
        }
    }

    /// Whether a workspace has had enough tool calls, and a session, for a summary.
    pub fn needs_summary(&self, workspace_uuid: &str, threshold: u32) -> (r: bool)
        ensures
            r == match index_of(self.workspaces@, workspace_uuid@) {
                Some(i) => self.workspaces@[i].tool_call_count >= threshold
                    && self.workspaces@[i].session is Some,
                None => false,
            },
            r ==> index_of(self.workspaces@, workspace_uuid@) is Some,
            index_of(self.workspaces@, workspace_uuid@) matches Some(i) ==> r == summary_is_due(
                self.workspaces@[i],
                threshold as int,
            ),
    {
        match self.workspace_index_for(workspace_uuid) {
            Some(idx) => {
                let ws = &self.workspaces[idx];
                ws.tool_call_count >= threshold && ws.session.is_some()
            },
            None => false,
        }
    }

    /// Starts counting a workspace's tool calls anew.
    pub fn reset_tool_count(&mut self, workspace_uuid: &str)
        ensures
            old(self).well_formed() ==> final(self).well_formed(),
            only_workspaces(*old(self), *final(self)),
            final(self).workspaces@ == edited(
                old(self).workspaces@,
                workspace_uuid@,
                |w: WorkspaceState| (WorkspaceState { tool_call_count: 0, ..w }),
            ),
    {
        if let Some(idx) = self.workspace_index_for(workspace_uuid) {
            self.workspaces[idx].tool_call_count = 0;
        }
    }

    /// Marks a workspace as being summarized.
    pub fn set_summarizing(&mut self, workspace_uuid: &str)
        ensures
            old(self).well_formed() ==> final(self).well_formed(),
            only_workspaces(*old(self), *final(self)),
            final(self).workspaces@ == edited(
                old(self).workspaces@,
                workspace_uuid@,
                |w: WorkspaceState| (WorkspaceState { summarizing: true, ..w }),
            ),
    {
        if let Some(idx) = self.workspace_index_for(workspace_uuid) {
            self.workspaces[idx].summarizing = true;
        }
    }

    /// Takes a generated summary; an attached session file takes it over too.
    pub fn apply_summary(&mut self, workspace_uuid: &str, summary: Summary)
        ensures
            old(self).well_formed() ==> final(self).well_formed(),
            only_workspaces(*old(self), *final(self)),
            final(self).workspaces@.len() == old(self).workspaces@.len(),
            forall|j: int|
                0 <= j < old(self).workspaces@.len() && Some(j) != index_of(
                    old(self).workspaces@,
                    workspace_uuid@,
                ) ==> (#[trigger] final(self).workspaces@[j]) == old(self).workspaces@[j],
            match index_of(old(self).workspaces@, workspace_uuid@) {
                Some(i) => summarized(
                    old(self).workspaces@[i],
                    summary,
                    final(self).workspaces@[i],
                ),
                None => true,
            },
    {
        proof {
            lemma_last_index(self.workspaces@, workspace_uuid@, self.workspaces@.len() as int);
        }
        if let Some(idx) = self.workspace_index_for(workspace_uuid) {
            let trajectory = summary.trajectory.clone();
            let steps = clone_strings(&summary.next_steps);
            self.workspaces[idx].summarizing = false;
            match &mut self.workspaces[idx].session {
                Some(session) => {
                    session.trajectory = Some(trajectory);
                    session.next_steps = steps;
                },
                None => {},
            }
            self.workspaces[idx].summary = Some(summary);
        }
    }

    /// Takes a session file that has changed, if it could be read. Returns its
    /// workspace when the recorded progress differs from what the file said before.
    pub fn handle_file_changed(&mut self, read: Option<SessionFile>) -> (r: Option<String>)
        requires
            old(self).bullets_seen.well_formed(),
        ensures
            old(self).well_formed() ==> final(self).well_formed(),
            final(self).bullets_seen.well_formed(),
            took_reading(*old(self), read, opt_view(r), *final(self)),
    {
        let sf = match read {
            Some(sf) => sf,
            None => {
                return None;
            },
        };
        let ws_id = match &sf.frontmatter.workspace_id {
            Some(id) => id.clone(),
            None => {
                return None;
            },
        };
        let changed = match self.bullets_seen.get(sf.path.as_str()) {
            Some(old) => !crate::tasks::same_texts(old, &sf.bullets),
            None => false,
        };
        self.bullets_seen.insert(sf.path.clone(), clone_strings(&sf.bullets));
        if let Some(idx) = self.workspace_index_for(ws_id.as_str()) {
            self.workspaces[idx].session = Some(sf);
        }
        if changed {
            Some(ws_id)
        } else {
            None
        }
    }

    /// The selected workspace.
    pub fn selected_workspace(&self) -> (r: Option<&WorkspaceState>)
        ensures
            match r {
                Some(w) => self.selected < self.workspaces@.len() && *w
                    == self.workspaces@[self.selected as int],
                None => self.selected >= self.workspaces@.len(),
            },
    {
        if self.selected < self.workspaces.len() {
            Some(&self.workspaces[self.selected])
        } else {
            None
        }
    }

    fn window_id(&self) -> (r: Option<String>)
        ensures
            opt_view(r) == first_window(self.workspaces@, 0),
    {
        let mut i: usize = 0;
        while i < self.workspaces.len()
            invariant
                i <= self.workspaces@.len(),
                first_window(self.workspaces@, 0) == first_window(self.workspaces@, i as int),
            decreases self.workspaces@.len() - i,
        {
            if let Some(w) = &self.workspaces[i].workspace.window_id {
                return Some(w.clone());
            }
            i += 1;
        }
        None
    }

    /// The line of identities and warnings. Warnings come last, so that a line cut
    /// from the left keeps them.
    pub fn bottom_info(&self) -> (r: Option<String>)
        ensures
            match r {
                Some(s) => info_parts(*self).len() > 0 && s@ == join(info_parts(*self), " · "@),
                None => info_parts(*self).len() == 0,
            },
    {
        let mut parts: Vec<String> = Vec::new();
        assert(views(parts@) =~= Seq::<Seq<char>>::empty());
        if let Some(ws) = self.selected_workspace() {
            if self.focus == Focus::Detail {
                push_part(&mut parts, "surface ", &highlighted_surface_id(ws));
            }
            push_part(&mut parts, "workspace ", &Some(ws.workspace.uuid.clone()));
        }
        push_part(&mut parts, "window ", &self.window_id());
        push_part(&mut parts, "⚠ ", &self.global_warning);
        push_part(&mut parts, "⚠ ", &self.mesh_warning);
        assert(views(parts@) =~= info_parts(*self));
        assert(views(parts@).len() == parts@.len());
        if parts.len() == 0 {
            None
        } else {
            Some(join_strings(&parts, " · "))
        }
    }

    /// Takes a screen capture. The capture's task counts must fit their type.
    pub fn apply_screen_update(&mut self, update: ScreenUpdate, agents: &AgentTable)
        requires
            update.screen is Some ==> tasks_total(trim_all(lines(update.screen.unwrap()@)))
                <= u16::MAX,
        ensures
            old(self).well_formed() ==> final(self).well_formed(),
            only_workspaces(*old(self), *final(self)),
            final(self).workspaces@.len() == old(self).workspaces@.len(),
            forall|j: int|
                0 <= j < old(self).workspaces@.len() && Some(j) != index_of(
                    old(self).workspaces@,
                    update.workspace_uuid@,
                ) ==> (#[trigger] final(self).workspaces@[j]) == old(self).workspaces@[j],
            match index_of(old(self).workspaces@, update.workspace_uuid@) {
                Some(i) => captured(
                    old(self).workspaces@[i],
                    update,
                    *agents,
                    final(self).workspaces@[i],
                ),
                None => true,
            },
    {
        proof {
            lemma_last_index(
                self.workspaces@,
                update.workspace_uuid@,
                self.workspaces@.len() as int,
            );
        }
        if let Some(idx) = self.workspace_index_for(update.workspace_uuid.as_str()) {
            self.workspaces[idx].loading = false;
            if let Some(screen) = &update.screen {
                let insights = parse_screen_insights(screen.as_str(), agents);
                let preview = preview_of(screen.as_str());
                self.workspaces[idx].screen_insights = insights;
                self.workspaces[idx].screen_preview = Some(preview);
            }
            if update.classification.is_some() {
                self.workspaces[idx].classification = update.classification;
            }
        }
    }

    /// Selects the next workspace, the first one after the last.
    pub fn next(&mut self)
        ensures
            old(self).well_formed() ==> final(self).well_formed(),
            *final(self) == (if old(self).workspaces@.len() > 0 {
                App {
                    selected: next_of(
                        old(self).selected as int,
                        old(self).workspaces@.len() as int,
                    ) as usize,
                    detail_scroll: 0,
                    ..*old(self)
                }
            } else {
                *old(self)
            }),
    {
        let n: usize = self.workspaces.len();
        if n > 0 {
            proof {
                lemma_reduced_step(self.selected as int, 1, n as int);
            }
            self.selected = (self.selected % n + 1) % n;
            self.detail_scroll = 0;
        }
    }

    /// Selects the previous workspace, the last one before the first.
    pub fn previous(&mut self)
        ensures
            old(self).well_formed() ==> final(self).well_formed(),
            *final(self) == (if old(self).workspaces@.len() > 0 {
                App {
                    selected: previous_of(
                        old(self).selected as int,
                        old(self).workspaces@.len() as int,
                    ) as usize,
                    detail_scroll: 0,
                    ..*old(self)
                }
            } else {
                *old(self)
            }),
    {
        let n: usize = self.workspaces.len();
        if n > 0 {
            let place: usize = self.selected % n;
            proof {
                lemma_reduced_step(self.selected as int, n - 1, n as int);
                lemma_wrapped_step(place as int, n - 1, n as int);
            }
            self.selected = if place == 0 {
                n - 1
            } else {
                place - 1
            };
            self.detail_scroll = 0;
        }
    }

    /// Scrolls the detail pane three lines down.
    pub fn scroll_down(&mut self)
        ensures
            old(self).well_formed() ==> final(self).well_formed(),
            *final(self) == (App {
                detail_scroll: (if old(self).detail_scroll + 3 <= u16::MAX {
                    old(self).detail_scroll + 3
                } else {
                    u16::MAX as int
                }) as u16,
                ..*old(self)
            }),
            final(self).detail_scroll == further_down(old(self).detail_scroll as int),
    {
        self.detail_scroll = self.detail_scroll.saturating_add(3);
    }

    /// Scrolls the detail pane three lines up.
    pub fn scroll_up(&mut self)
        ensures
            old(self).well_formed() ==> final(self).well_formed(),
            *final(self) == (App {
                detail_scroll: (if old(self).detail_scroll >= 3 {
                    old(self).detail_scroll - 3
                } else {
                    0
                }) as u16,
                ..*old(self)
            }),
            final(self).detail_scroll == further_up(old(self).detail_scroll as int),
    {
        self.detail_scroll = self.detail_scroll.saturating_sub(3);
    }

    /// The path of a workspace's notes in the given directory.
    pub fn notes_path_for(&self, dir: &str, ws: &WorkspaceState) -> (r: String)
        ensures
            r@ == dir@ + "/"@ + (slug(ws.workspace.name@) + ".md"@),
    {
        let file = concat2(workspace_slug(ws.workspace.name.as_str()).as_str(), ".md");
        concat3(dir, "/", file.as_str())
    }

    /// Takes the notes of all workspaces, by workspace name.
    pub fn load_notes(&mut self, files: &Assoc<String>)
        ensures
            old(self).well_formed() ==> final(self).well_formed(),
            only_workspaces(*old(self), *final(self)),
            final(self).workspaces@ == old(self).workspaces@.map_values(
                |w: WorkspaceState|
                    (WorkspaceState { notes: useful(files.lookup(w.workspace.name@)), ..w }),
            ),
    {
        let ghost before = *self;
        let ghost all = before.workspaces@.map_values(
            |w: WorkspaceState|
                (WorkspaceState { notes: useful(files.lookup(w.workspace.name@)), ..w }),
        );
        let n: usize = self.workspaces.len();
        let mut i: usize = 0;
        while i < n
            invariant
                i <= n,
                n == self.workspaces@.len(),
                n == before.workspaces@.len(),
                only_workspaces(before, *self),
                all == before.workspaces@.map_values(
                    |w: WorkspaceState|
                        (WorkspaceState { notes: useful(files.lookup(w.workspace.name@)), ..w }),
                ),
                forall|k: int| 0 <= k < i ==> (#[trigger] self.workspaces@[k]) == all[k],
                forall|k: int|
                    i <= k < n ==> (#[trigger] self.workspaces@[k]) == before.workspaces@[k],
            decreases n - i,
        {
            let notes = workspace_notes(self.workspaces[i].workspace.name.as_str(), files);
            self.workspaces[i].notes = notes;
            i += 1;
        }
        assert(self.workspaces@ =~= all);
    }

    /// Takes a workspace's document as it now is on disk, unless the user is
    /// editing it.
    pub fn apply_trajectory_update(&mut self, uuid: &str, loaded: Option<TrajectoryDoc>)
        ensures
            old(self).well_formed() ==> final(self).well_formed(),
            only_workspaces(*old(self), *final(self)),
            final(self).workspaces@ == edited(
                old(self).workspaces@,
                uuid@,
                |w: WorkspaceState|
                    if editing(w) || loaded is None {
                        w
                    } else {
                        WorkspaceState { trajectory: loaded, ..w }
                    },
            ),
    {
        let ghost before = self.workspaces@;
        proof {
            lemma_last_index(before, uuid@, before.len() as int);
        }
        if let Some(idx) = self.workspace_index_for(uuid) {
            if !is_editing(&self.workspaces[idx]) && loaded.is_some() {
                self.workspaces[idx].trajectory = loaded;
            } else {
                assert(before.update(idx as int, before[idx as int]) =~= before);
            }
        }
    }

    /// Counts a round of remote captures.
    pub fn next_grab_tick(&mut self) -> (r: u64)
        ensures
            old(self).well_formed() ==> final(self).well_formed(),
            r == (if old(self).remote_grab_tick < u64::MAX {
                old(self).remote_grab_tick + 1
            } else {
                0
            }),
            *final(self) == (App { remote_grab_tick: r, ..*old(self) }),
    {
        self.remote_grab_tick = self.remote_grab_tick.wrapping_add(1);
        self.remote_grab_tick
    }

    /// Hands on a remote surface's transcript when it has grown enough for another
    /// inference.
    pub fn apply_remote_grab(&self, update: RemoteGrabUpdate, transcript: Option<String>) -> (r:
        Option<(String, String, String)>)
        ensures
            r == (match transcript {
                Some(t) => Some((update.workspace_uuid, update.surface_ref, t)),
                None => None,
            }),
    {
        match transcript {
            Some(t) => Some((update.workspace_uuid, update.surface_ref, t)),
            None => None,
        }
    }

    /// Takes an intent that was inferred for a remote surface.
    pub fn apply_remote_intent(&mut self, update: RemoteIntentUpdate)
        requires
            old(self).remote_intents.well_formed(),
        ensures
            old(self).well_formed() ==> final(self).well_formed(),
            *final(self) == (App { remote_intents: final(self).remote_intents, ..*old(self) }),
            final(self).remote_intents.well_formed(),
            final(self).remote_intents.lookup(update.surface_ref@) == Some(update.intent),
            forall|k: Seq<char>|
                k != update.surface_ref@ ==> #[trigger] final(self).remote_intents.lookup(k) == old(
                    self,
                ).remote_intents.lookup(k),
    {
        self.remote_intents.insert(update.surface_ref, update.intent);
    }
}

// ---------------------------------------------------------------------------
// Session files
// ---------------------------------------------------------------------------

/// A session file that was read and belongs to a workspace.
pub open spec fn is_reading(read: Option<SessionFile>) -> bool {
    read is Some && read.unwrap().frontmatter.workspace_id is Some
}

/// What is remembered of the file at `path`.
pub open spec fn remembered(a: App, path: Seq<char>) -> Option<Seq<Seq<char>>> {
    match a.bullets_seen.lookup(path) {
        Some(b) => Some(views(b@)),
        None => None,
    }
}

/// What is reported of a reading, given what is remembered of its file: the workspace
/// when the recorded progress differs.
pub open spec fn change_in(read: Option<SessionFile>, before: Option<Seq<Seq<char>>>) -> Option<
    Seq<char>,
> {
    if is_reading(read) && before is Some && before.unwrap() != views(read.unwrap().bullets@) {
        Some(read.unwrap().frontmatter.workspace_id.unwrap()@)
    } else {
        None
    }
}

/// `b` is `a` after a reading of which `r` was reported. A file that could not be read,
/// or that belongs to no workspace, changes nothing.
pub open spec fn took_reading(
    a: App,
    read: Option<SessionFile>,
    r: Option<Seq<char>>,
    b: App,
) -> bool {
    if is_reading(read) {
        let sf = read.unwrap();
        &&& r == change_in(read, remembered(a, sf.path@))
        &&& b == (App { workspaces: b.workspaces, bullets_seen: b.bullets_seen, ..a })
        &&& remembered(b, sf.path@) == Some(views(sf.bullets@))
        &&& forall|k: Seq<char>| k != sf.path@ ==> #[trigger] remembered(b, k) == remembered(a, k)
        &&& b.workspaces@ == edited(
            a.workspaces@,
            sf.frontmatter.workspace_id.unwrap()@,
            |w: WorkspaceState| (WorkspaceState { session: Some(sf), ..w }),
        )
    } else {
        r is None && b == a
    }
}

/// What the last of the first `n` readings of the file at `path` said.
pub open spec fn last_reading(
    history: Seq<Option<SessionFile>>,
    path: Seq<char>,
    n: int,
) -> Option<Seq<Seq<char>>>
    decreases n,
{
    if n <= 0 {
        None
    } else if is_reading(history[n - 1]) && history[n - 1].unwrap().path@ == path {
        Some(views(history[n - 1].unwrap().bullets@))
    } else {
        last_reading(history, path, n - 1)
    }
}

/// The application remembers exactly what the first `n` readings said.
pub open spec fn remembers(a: App, history: Seq<Option<SessionFile>>, n: int) -> bool {
    forall|path: Seq<char>| #[trigger] remembered(a, path) == last_reading(history, path, n)
}

/// Over any number of readings, what is reported of one depends on the last earlier
/// reading of the same file alone.
pub proof fn a_reading_is_compared_with_the_last_one(
    a: App,
    history: Seq<Option<SessionFile>>,
    n: int,
    r: Option<Seq<char>>,
    b: App,
)
    requires
        0 <= n < history.len(),
        remembers(a, history, n),
        took_reading(a, history[n], r, b),
    ensures
        remembers(b, history, n + 1),
        is_reading(history[n]) ==> r == change_in(
            history[n],
            last_reading(history, history[n].unwrap().path@, n),
        ),
        !is_reading(history[n]) ==> r is None && b == a,
{
    assert forall|path: Seq<char>| #[trigger] remembered(b, path) == last_reading(
        history,
        path,
        n + 1,
    ) by {
        assert(remembered(a, path) == last_reading(history, path, n));
    }
}

/// A change is reported only after an earlier reading of the same file that said
/// something else, and never for the first reading of a file.
pub proof fn a_change_needs_an_earlier_reading(history: Seq<Option<SessionFile>>, n: int)
    requires
        0 <= n < history.len(),
        is_reading(history[n]),
    ensures
        ({
            let sf = history[n].unwrap();
            let reported = change_in(history[n], last_reading(history, sf.path@, n));
            &&& reported is Some ==> reported == Some(sf.frontmatter.workspace_id.unwrap()@)
            &&& reported is Some ==> exists|i: int|
                0 <= i < n && is_reading(#[trigger] history[i]) && history[i].unwrap().path@
                    == sf.path@ && views(history[i].unwrap().bullets@) != views(sf.bullets@)
            &&& (forall|i: int|
                0 <= i < n && is_reading(#[trigger] history[i]) ==> history[i].unwrap().path@
                    != sf.path@) ==> reported is None
        }),
{
    lemma_last_reading(history, history[n].unwrap().path@, n);
}

proof fn lemma_last_reading(history: Seq<Option<SessionFile>>, path: Seq<char>, n: int)
    requires
        0 <= n <= history.len(),
    ensures
        last_reading(history, path, n) is Some ==> exists|i: int|
            0 <= i < n && is_reading(#[trigger] history[i]) && history[i].unwrap().path@ == path
                && last_reading(history, path, n) == Some(
                views(history[i].unwrap().bullets@),
            ),
    decreases n,
{
    if n > 0 && !(is_reading(history[n - 1]) && history[n - 1].unwrap().path@ == path) {
        lemma_last_reading(history, path, n - 1);
    }
}

// ---------------------------------------------------------------------------
// Captures
// ---------------------------------------------------------------------------

/// A surface of this reference is open in one of the workspaces.
pub open spec fn is_live(s: Seq<WorkspaceState>, surface_ref: Seq<char>) -> bool {
    exists|i: int, j: int|
        0 <= i < s.len() && 0 <= j < s[i].surfaces@.len() && (
        #[trigger] s[i].surfaces@[j]).ref_id@ == surface_ref
}

/// The references of the open surfaces of all workspaces.
pub fn live_refs(workspaces: &Vec<WorkspaceState>) -> (r: Vec<String>)
    ensures
        forall|k: Seq<char>| #[trigger] views(r@).contains(k) == is_live(workspaces@, k),
{
    let ghost s = workspaces@;
    let mut out: Vec<String> = Vec::new();
    let mut i: usize = 0;
    assert(views(out@) =~= Seq::<Seq<char>>::empty());
    while i < workspaces.len()
        invariant
            i <= workspaces@.len(),
            s == workspaces@,
            forall|k: Seq<char>|
                #[trigger] views(out@).contains(k) == is_live(s.take(i as int), k),
        decreases workspaces@.len() - i,
    {
        let surfaces = &workspaces[i].surfaces;
        let ghost head = s.take(i as int);
        let mut j: usize = 0;
        while j < surfaces.len()
            invariant
                j <= surfaces@.len(),
                i < s.len(),
                *surfaces == s[i as int].surfaces,
                head == s.take(i as int),
                forall|k: Seq<char>|
                    #[trigger] views(out@).contains(k) == (is_live(head, k) || exists|m: int|
                        0 <= m < j && (#[trigger] surfaces@[m]).ref_id@ == k),
            decreases surfaces@.len() - j,
        {
            let id = surfaces[j].ref_id.clone();
            let ghost before = views(out@);
            proof {
                lemma_views_push(out@, id);
            }
            out.push(id);
            assert forall|k: Seq<char>| #[trigger] views(out@).contains(k) == (is_live(head, k)
                || exists|m: int| 0 <= m < j + 1 && (#[trigger] surfaces@[m]).ref_id@ == k) by {
                let now = views(out@);
                if now.contains(k) {
                    let m = choose|m: int| 0 <= m < now.len() && now[m] == k;
                    if m < before.len() {
                        assert(before[m] == k);
                        assert(before.contains(k));
                    } else {
                        assert(surfaces@[j as int].ref_id@ == k);
                    }
                }
                if before.contains(k) {
                    let m = choose|m: int| 0 <= m < before.len() && before[m] == k;
                    assert(now[m] == k);
                }
                if surfaces@[j as int].ref_id@ == k {
                    assert(now[before.len() as int] == k);
                }
            }
            j += 1;
        }
        proof {
            let next = s.take(i + 1);
            assert forall|k: Seq<char>| #[trigger] views(out@).contains(k) == is_live(next, k) by {
                if is_live(head, k) {
                    let (a, b) = choose|a: int, b: int|
                        0 <= a < head.len() && 0 <= b < head[a].surfaces@.len() && (
                        #[trigger] head[a].surfaces@[b]).ref_id@ == k;
                    assert(next[a].surfaces@[b].ref_id@ == k);
                }
                if is_live(next, k) {
                    let (a, b) = choose|a: int, b: int|
                        0 <= a < next.len() && 0 <= b < next[a].surfaces@.len() && (
                        #[trigger] next[a].surfaces@[b]).ref_id@ == k;
                    if a < i {
                        assert(head[a].surfaces@[b].ref_id@ == k);
                    } else {
                        assert(surfaces@[b].ref_id@ == k);
                    }
                }
                if exists|m: int| 0 <= m < surfaces@.len() && (#[trigger] surfaces@[m]).ref_id@
                    == k {
                    let m = choose|m: int|
                        0 <= m < surfaces@.len() && (#[trigger] surfaces@[m]).ref_id@ == k;
                    assert(next[i as int].surfaces@[m].ref_id@ == k);
                }
            }
        }
        i += 1;
    }
    assert(s.take(i as int) =~= s);
    out
}

impl App {
    /// Forgets what was inferred of remote surfaces that are no longer open.
    pub fn retain_remote_intents(&mut self)
        requires
            old(self).remote_intents.well_formed(),
        ensures
            old(self).well_formed() ==> final(self).well_formed(),
            *final(self) == (App { remote_intents: final(self).remote_intents, ..*old(self) }),
            final(self).remote_intents.well_formed(),
            forall|k: Seq<char>|
                #[trigger] final(self).remote_intents.lookup(k) == (if is_live(
                    old(self).workspaces@,
                    k,
                ) {
                    old(self).remote_intents.lookup(k)
                } else {
                    None
                }),
    {
        let live = live_refs(&self.workspaces);
        self.remote_intents.retain(&live);
        assert(forall|k: Seq<char>|
            #[trigger] views(live@).contains(k) == is_live(self.workspaces@, k));
    }
}

/// A screen to capture, and whether it is to be classified.
#[derive(Debug, PartialEq, Eq)]
pub struct ScreenTask {
    pub workspace_uuid: String,
    pub ref_id: String,
    pub classify: bool,
}

/// The capture of a workspace's screen. It is classified only where the screen alone
/// tells what a remote client is doing.
pub open spec fn screen_task(w: WorkspaceState) -> ScreenTask {
    ScreenTask {
        workspace_uuid: w.workspace.uuid,
        ref_id: w.workspace.ref_id,
        classify: w.has_unbound_client(),
    }
}

fn task_for(ws: &WorkspaceState) -> (r: ScreenTask)
    ensures
        r == screen_task(*ws),
{
    ScreenTask {
        workspace_uuid: ws.workspace.uuid.clone(),
        ref_id: ws.workspace.ref_id.clone(),
        classify: ws.needs_remote_screen_inference(),
    }
}

/// A surface whose terminal is to be captured: workspace, surface and terminal.
pub open spec fn grab_of(w: WorkspaceState, i: int) -> Option<(Seq<char>, Seq<char>, Seq<char>)> {
    let s = w.surfaces@[i];
    if w.remote_surfaces.has_key(s.ref_id@) || s.tty is None {
        None
    } else {
        Some((w.workspace.uuid@, s.ref_id@, s.tty.unwrap()@))
    }
}

/// The captures of the first `n` surfaces of a workspace.
pub open spec fn grabs_of(w: WorkspaceState, n: int) -> Seq<(Seq<char>, Seq<char>, Seq<char>)>
    decreases n,
{
    if n <= 0 {
        Seq::empty()
    } else {
        match grab_of(w, n - 1) {
            Some(g) => grabs_of(w, n - 1).push(g),
            None => grabs_of(w, n - 1),
        }
    }
}

/// Texts in threes.
pub open spec fn triple_views(s: Seq<(String, String, String)>) -> Seq<
    (Seq<char>, Seq<char>, Seq<char>),
> {
    s.map_values(|t: (String, String, String)| (t.0@, t.1@, t.2@))
}

/// The surfaces of a workspace whose terminals can be captured: those that have one
/// and are not bound to a remote session, which is the better source.
pub fn grab_candidates(ws: &WorkspaceState) -> (r: Vec<(String, String, String)>)
    ensures
        triple_views(r@) == grabs_of(*ws, ws.surfaces@.len() as int),
{
    let mut out: Vec<(String, String, String)> = Vec::new();
    let mut i: usize = 0;
    assert(triple_views(out@) =~= Seq::<(Seq<char>, Seq<char>, Seq<char>)>::empty());
    while i < ws.surfaces.len()
        invariant
            i <= ws.surfaces@.len(),
            triple_views(out@) == grabs_of(*ws, i as int),
        decreases ws.surfaces@.len() - i,
    {
        let s = &ws.surfaces[i];
        if !ws.remote_surfaces.contains_key(s.ref_id.as_str()) {
            if let Some(tty) = &s.tty {
                let t = (ws.workspace.uuid.clone(), s.ref_id.clone(), tty.clone());
                let ghost before = out@;
                out.push(t);
                assert(triple_views(out@) =~= triple_views(before).push((t.0@, t.1@, t.2@)));
            }
        }
        i += 1;
    }
    out
}

impl App {
    /// Starts a capture of the selected workspace's screen.
    pub fn start_screen_capture(&mut self) -> (r: Option<ScreenTask>)
        ensures
            old(self).well_formed() ==> final(self).well_formed(),
            only_workspaces(*old(self), *final(self)),
            final(self).workspaces@ == selected_edited(
                old(self).workspaces@,
                old(self).selected as int,
                |w: WorkspaceState| (WorkspaceState { loading: true, ..w }),
            ),
            r == (if old(self).selected < old(self).workspaces@.len() {
                Some(screen_task(old(self).workspaces@[old(self).selected as int]))
            } else {
                None
            }),
    {
        let idx: usize = self.selected;
        if idx >= self.workspaces.len() {
            return None;
        }
        let task = task_for(&self.workspaces[idx]);
        self.workspaces[idx].loading = true;
        Some(task)
    }

    /// Starts captures of all screens.
    pub fn start_all_screen_captures(&mut self) -> (r: Vec<ScreenTask>)
        ensures
            old(self).well_formed() ==> final(self).well_formed(),
            only_workspaces(*old(self), *final(self)),
            final(self).workspaces@ == old(self).workspaces@.map_values(
                |w: WorkspaceState| (WorkspaceState { loading: true, ..w }),
            ),
            r@ == old(self).workspaces@.map_values(|w: WorkspaceState| screen_task(w)),
    {
        let ghost before = *self;
        let ghost s = before.workspaces@;
        let n: usize = self.workspaces.len();
        let mut out: Vec<ScreenTask> = Vec::new();
        let mut i: usize = 0;
        while i < n
            invariant
                i <= n,
                n == s.len(),
                n == self.workspaces@.len(),
                only_workspaces(before, *self),
                forall|k: int|
                    0 <= k < i ==> (#[trigger] self.workspaces@[k]) == (WorkspaceState {
                        loading: true,
                        ..s[k]
                    }),
                forall|k: int| i <= k < n ==> (#[trigger] self.workspaces@[k]) == s[k],
                out@ =~= s.map_values(|w: WorkspaceState| screen_task(w)).take(i as int),
            decreases n - i,
        {
            out.push(task_for(&self.workspaces[i]));
            self.workspaces[i].loading = true;
            i += 1;
        }
        assert(self.workspaces@ =~= s.map_values(
            |w: WorkspaceState| (WorkspaceState { loading: true, ..w }),
        ));
        assert(out@ =~= s.map_values(|w: WorkspaceState| screen_task(w)));
        out
    }
}

/// A workspace after a summary was generated for it.
pub open spec fn summarized(w: WorkspaceState, s: Summary, r: WorkspaceState) -> bool {
    &&& r == (WorkspaceState {
        summarizing: false,
        session: r.session,
        summary: Some(s),
        ..w
    })
    &&& match w.session {
        Some(f) => {
            &&& r.session is Some
            &&& r.session.unwrap() == (SessionFile {
                trajectory: Some(s.trajectory),
                next_steps: r.session.unwrap().next_steps,
                ..f
            })
            &&& r.session.unwrap().next_steps@ == s.next_steps@
        },
        None => r.session is None,
    }
}

/// A workspace after a screen capture.
pub open spec fn captured(
    w: WorkspaceState,
    u: ScreenUpdate,
    agents: AgentTable,
    r: WorkspaceState,
) -> bool {
    &&& r == (WorkspaceState {
        loading: false,
        screen_insights: r.screen_insights,
        screen_preview: r.screen_preview,
        classification: match u.classification {
            Some(c) => Some(c),
            None => w.classification,
        },
        ..w
    })
    &&& match u.screen {
        Some(s) => reads(s@, agents, r.screen_insights) && opt_view(r.screen_preview) == Some(
            join(shown_lines(s@), "\n"@),
        ),
        None => r.screen_insights == w.screen_insights && r.screen_preview == w.screen_preview,
    }
}

/// The selection after the next of `n` workspaces was asked for.
pub open spec fn next_of(selected: int, n: int) -> int {
    (selected + 1) % n
}

/// The selection after the previous of `n` workspaces was asked for.
pub open spec fn previous_of(selected: int, n: int) -> int {
    (selected + n - 1) % n
}

proof fn lemma_reduced_step(s: int, k: int, n: int)
    requires
        0 <= s,
        0 <= k,
        0 < n,
    ensures
        0 <= s % n < n,
        (s % n + k) % n == (s + k) % n,
{
    vstd::arithmetic::div_mod::lemma_add_mod_noop(s % n, k, n);
    vstd::arithmetic::div_mod::lemma_add_mod_noop(s, k, n);
    vstd::arithmetic::div_mod::lemma_mod_twice(s, n);
    vstd::arithmetic::div_mod::lemma_mod_bound(s, n);
}

proof fn lemma_wrapped_step(s: int, k: int, n: int)
    requires
        0 <= s < n,
        0 <= k <= n,
    ensures
        (s + k) % n == if s + k < n {
            s + k
        } else {
            s + k - n
        },
{
    if s + k < n {
        vstd::arithmetic::div_mod::lemma_small_mod((s + k) as nat, n as nat);
    } else {
        vstd::arithmetic::div_mod::lemma_mod_sub_multiples_vanish(s + k, n);
        vstd::arithmetic::div_mod::lemma_small_mod((s + k - n) as nat, n as nat);
    }
}

/// The selection after `k` steps forward.
pub open spec fn after_steps(selected: int, n: int, k: nat) -> int
    decreases k,
{
    if k == 0 {
        selected
    } else {
        next_of(after_steps(selected, n, (k - 1) as nat), n)
    }
}

/// One of as many steps as there are workspaces selects `w`.
pub open spec fn is_visited(selected: int, n: int, w: int) -> bool {
    exists|k: nat| 1 <= k <= n && #[trigger] after_steps(selected, n, k) == w
}

proof fn lemma_after_steps(selected: int, n: int, k: nat)
    requires
        0 <= selected < n,
        k <= n,
    ensures
        after_steps(selected, n, k) == if selected + k < n {
            selected + k
        } else {
            selected + k - n
        },
    decreases k,
{
    if k > 0 {
        lemma_after_steps(selected, n, (k - 1) as nat);
        lemma_wrapped_step(after_steps(selected, n, (k - 1) as nat), 1, n);
    }
}

/// As many steps forward as there are workspaces come back to where they began, and
/// visit each workspace exactly once.
pub proof fn a_round_visits_every_workspace_once(selected: int, n: int)
    requires
        0 <= selected < n,
    ensures
        after_steps(selected, n, n as nat) == selected,
        forall|k: nat| k <= n ==> 0 <= #[trigger] after_steps(selected, n, k) < n,
        forall|i: nat, k: nat|
            i < k <= n && (i > 0 || k < n) ==> #[trigger] after_steps(selected, n, i)
                != #[trigger] after_steps(selected, n, k),
        forall|w: int| 0 <= w < n ==> #[trigger] is_visited(selected, n, w),
{
    assert forall|k: nat| k <= n implies #[trigger] after_steps(selected, n, k) == if selected + k
        < n {
        selected + k
    } else {
        selected + k - n
    } by {
        lemma_after_steps(selected, n, k);
    }
    assert forall|w: int| 0 <= w < n implies #[trigger] is_visited(selected, n, w) by {
        let k = (if w > selected {
            w - selected
        } else {
            w - selected + n
        }) as nat;
        assert(after_steps(selected, n, k) == w);
    }
}

/// Whatever was selected, after a step a workspace is.
pub proof fn a_step_selects_a_workspace(selected: int, n: int)
    requires
        0 <= selected,
        0 < n,
    ensures
        0 <= next_of(selected, n) < n,
        0 <= previous_of(selected, n) < n,
{
    assert(0 <= (selected + 1) % n < n) by (nonlinear_arith)
        requires
            0 < n,
    ;
    assert(0 <= (selected + n - 1) % n < n) by (nonlinear_arith)
        requires
            0 < n,
    ;
}

/// A step forward and a step back cancel out.
pub proof fn selection_steps_cancel_out(selected: int, n: int)
    requires
        0 <= selected < n,
    ensures
        previous_of(next_of(selected, n), n) == selected,
        next_of(previous_of(selected, n), n) == selected,
{
    if selected + 1 == n {
        assert(n % n == 0) by (nonlinear_arith)
            requires
                0 < n,
        ;
        assert((n - 1) % n == n - 1) by (nonlinear_arith)
            requires
                0 < n,
        ;
    } else {
        assert((selected + 1) % n == selected + 1) by (nonlinear_arith)
            requires
                0 <= selected + 1 < n,
        ;
    }
    assert((selected + n) % n == selected) by (nonlinear_arith)
        requires
            0 <= selected < n,
    ;
    if selected == 0 {
        assert((n - 1) % n == n - 1) by (nonlinear_arith)
            requires
                0 < n,
        ;
        assert(n % n == 0) by (nonlinear_arith)
            requires
                0 < n,
        ;
    } else {
        assert((selected + n - 1) % n == selected - 1) by (nonlinear_arith)
            requires
                0 < selected < n,
        ;
        assert(selected % n == selected) by (nonlinear_arith)
            requires
                0 <= selected < n,
        ;
    }
}

} // verus!
