//! Keys in the detail pane: peek mode, the dispatch modal, read-only task rows and
//! the editor, in that order.
use crate::app::{only_workspaces, App};
use crate::clock::Moment;
use crate::dispatch_modal::{
    after_key, fresh_options, DispatchModal, DispatchView, ModalView, OutcomeView,
};
use crate::keys::{KeyCode, KeyEvent};
use crate::peek_view::{
    capped, lowered, PeekSource, PeekState, PeekView, PAGE_SIZE,
};
use crate::surface::{SurfaceInfo, SurfaceKind};
use crate::tasks::{linear_desktop_url_for_row, url_for_row};
use crate::text::{chars_of, concat2, concat3, opt_view, same, trim, trim_chars, views};
use crate::trajectory::{
    section_is, DocView, Item, ItemView, TrajectoryDoc, SECTION_CURRENT_SURFACES, SECTION_GOALS,
};
use crate::trajectory_edit::{
    action_views, handle_key, initial_edit, key_defined, key_is_defined, key_outcome, no_actions,
    ActionView, EditAction, EditMode, EditView, TrajectoryEditState,
};
use crate::workspace::{Focus, WorkspaceState};
use vstd::prelude::*;

verus! {

/// What is known of the surface under the cursor: its kind, an agent that left it a
/// moment ago counted in, and the session log that was found for it.
#[derive(Debug, Clone)]
pub struct PeekRoute {
    pub effective: SurfaceKind,
    pub session_path: Option<String>,
}

/// What a key press in the detail pane can change.
#[verifier::ext_equal]
pub struct PaneView {
    pub modal: Option<ModalView>,
    pub outcome: Option<OutcomeView>,
    pub peek: Option<PeekView>,
    pub yielding: bool,
    pub doc: Option<DocView>,
    pub edit: Option<EditView>,
    pub link: Option<Seq<char>>,
}

/// What the pane of a workspace shows.
pub open spec fn pane(w: WorkspaceState) -> PaneView {
    PaneView {
        modal: match w.dispatch_modal {
            Some(m) => Some(m@),
            None => None,
        },
        outcome: match w.dispatch_pending_outcome {
            Some(o) => Some(o@),
            None => None,
        },
        peek: match w.peek_state {
            Some(p) => Some(p@),
            None => None,
        },
        yielding: w.peek_yield_pending,
        doc: match w.trajectory {
            Some(d) => Some(d@),
            None => None,
        },
        edit: match w.edit_state {
            Some(s) => Some(s@),
            None => None,
        },
        link: opt_view(w.linear_open_pending),
    }
}

/// Nothing but the pane differs.
pub open spec fn only_pane(a: WorkspaceState, b: WorkspaceState) -> bool {
    b == (WorkspaceState {
        dispatch_modal: b.dispatch_modal,
        dispatch_pending_outcome: b.dispatch_pending_outcome,
        peek_state: b.peek_state,
        peek_yield_pending: b.peek_yield_pending,
        trajectory: b.trajectory,
        edit_state: b.edit_state,
        linear_open_pending: b.linear_open_pending,
        ..a
    })
}

/// Pane and actions after a key press.
#[verifier::ext_equal]
pub struct PaneStep {
    pub pane: PaneView,
    pub actions: Seq<ActionView>,
}

/// A step that emits no action.
pub open spec fn silent(p: PaneView) -> PaneStep {
    PaneStep { pane: p, actions: Seq::empty() }
}

// ---------------------------------------------------------------------------
// Peek mode
// ---------------------------------------------------------------------------

/// A peek after a key that scrolls it; other keys leave it as it is.
pub open spec fn scrolled(p: PeekState, code: KeyCode) -> PeekState {
    if code == KeyCode::Char('j') || code == KeyCode::Down {
        PeekState {
            scroll_offset: (if p.scroll_offset < p.bottom() {
                capped(p.scroll_offset + 3, p.bottom())
            } else {
                p.scroll_offset as int
            }) as u16,
            auto_follow: false,
            ..p
        }
    } else if code == KeyCode::Char('k') || code == KeyCode::Up {
        PeekState {
            scroll_offset: lowered(p.scroll_offset as int, 3) as u16,
            auto_follow: false,
            ..p
        }
    } else if code == KeyCode::Char(' ') {
        PeekState {
            scroll_offset: capped(p.scroll_offset + PAGE_SIZE, p.bottom()) as u16,
            auto_follow: false,
            ..p
        }
    } else if code == KeyCode::Char('-') {
        PeekState {
            scroll_offset: lowered(p.scroll_offset as int, PAGE_SIZE as int) as u16,
            auto_follow: false,
            ..p
        }
    } else if code == KeyCode::Char('g') {
        PeekState { scroll_offset: 0, auto_follow: false, ..p }
    } else if code == KeyCode::Char('G') {
        PeekState { scroll_offset: p.bottom() as u16, auto_follow: true, ..p }
    } else {
        p
    }
}

/// A key in peek mode: Esc leaves it, Enter asks to go to the surface, the rest
/// scrolls.
pub open spec fn peek_step(v: PaneView, p: PeekState, code: KeyCode) -> PaneView {
    if code == KeyCode::Esc {
        PaneView { peek: None, ..v }
    } else if code == KeyCode::Enter {
        PaneView { yielding: true, ..v }
    } else {
        PaneView { peek: Some(scrolled(p, code)@), ..v }
    }
}

fn scroll_peek(peek: &mut PeekState, code: KeyCode)
    ensures
        *final(peek) == scrolled(*old(peek), code),
{
    match code {
        KeyCode::Char('j') | KeyCode::Down => peek.scroll_down(),
        KeyCode::Char('k') | KeyCode::Up => peek.scroll_up(),
        KeyCode::Char(' ') => peek.page_down(),
        KeyCode::Char('-') => peek.page_up(),
        KeyCode::Char('g') => peek.go_top(),
        KeyCode::Char('G') => peek.go_bottom(),
        _ => {},
    }
}

// ---------------------------------------------------------------------------
// The row under the cursor
// ---------------------------------------------------------------------------

/// The row under the cursor.
pub open spec fn cursor_row(s: EditView, d: DocView) -> Option<ItemView> {
    if 0 <= s.section < d.sections.len() && 0 <= s.item < d.sections[s.section].items.len() {
        Some(d.sections[s.section].items[s.item])
    } else {
        None
    }
}

/// The surface that a row stands for; empty when it names none.
pub open spec fn row_surface(row: Option<ItemView>) -> Seq<char> {
    match row {
        Some(i) => match i.surface_id {
            Some(id) => id,
            None => ""@,
        },
        None => ""@,
    }
}

/// The peek that Enter opens on a surface's row. A surface bound to a remote
/// session shows its own screen; an agent's shows its session log, or nothing yet;
/// any other its own screen.
pub open spec fn opened_peek(w: WorkspaceState, row: Option<ItemView>, route: PeekRoute) -> PeekView {
    let home = w.workspace.ref_id@;
    PeekView {
        workspace_ref: home,
        surface_ref: match row {
            Some(i) => match i.surface_id {
                Some(id) => id,
                None => home,
            },
            None => home,
        },
        surface_label: match row {
            Some(i) => match i.surface_id {
                Some(id) => i.text + " ("@ + (id + ")"@),
                None => i.text,
            },
            None => home,
        },
        session_path: if !w.remote_surfaces.has_key(row_surface(row))
            && route.effective.is_agent_spec() {
            Some(
                match route.session_path {
                    Some(p) => p@,
                    None => ""@,
                },
            )
        } else {
            None
        },
        offset: 0,
        buffer: Seq::empty(),
        last_poll: None,
        polling: false,
        follow: true,
    }
}

/// Keys that would change a row which the task tracker owns. Linear rows do not
/// even change places.
pub open spec fn is_row_key(code: KeyCode, linear: bool) -> bool {
    match code {
        KeyCode::Char(c) => c == ' ' || c == 'x' || c == 'X' || c == 'd' || c == 'o' || c == 'O'
            || c == 'i' || linear && (c == 'J' || c == 'K'),
        _ => false,
    }
}

fn changes_row(code: KeyCode, linear: bool) -> (r: bool)
    ensures
        r == is_row_key(code, linear),
{
    match code {
        KeyCode::Char(c) => c == ' ' || c == 'x' || c == 'X' || c == 'd' || c == 'o' || c == 'O'
            || c == 'i' || (linear && (c == 'J' || c == 'K')),
        _ => false,
    }
}

/// The modal that Enter opens on a goal.
pub open spec fn opened_modal(w: WorkspaceState, goal: Seq<char>) -> ModalView {
    ModalView {
        goal_text: goal,
        workspace_uuid: w.workspace.uuid@,
        workspace_ref: w.workspace.ref_id@,
        view: DispatchView::PickSurface { selection: 0 },
        options: fresh_options(w.surfaces@),
        error: None,
    }
}

/// A key in the document of a workspace, with the editor's state `s`. The document is
/// edited only while its pane has the focus.
pub open spec fn document_step(
    w: WorkspaceState,
    focused: bool,
    s: EditView,
    d: DocView,
    key: KeyEvent,
    now: Moment,
    route: PeekRoute,
) -> PaneStep {
    let p = PaneView { edit: Some(s), ..pane(w) };
    let calm = PaneView { edit: Some(EditView { pending_d: None, ..s }), ..p };
    let nav = s.mode == EditMode::Nav;
    let on_goals = section_is(d, s.section, SECTION_GOALS@);
    let row = cursor_row(s, d);
    if nav && key.code == KeyCode::Enter && section_is(d, s.section, SECTION_CURRENT_SURFACES@) {
        silent(PaneView { peek: Some(opened_peek(w, row, route)), ..p })
    } else if nav && on_goals && w.linear is Some && key.code == KeyCode::Enter {
        silent(
            PaneView {
                link: match row {
                    Some(i) => url_for_row(w.linear.unwrap().issues@, i.text, 0),
                    None => None,
                },
                ..calm
            },
        )
    } else if nav && on_goals && w.linear is Some && is_row_key(key.code, true) {
        silent(calm)
    } else if nav && on_goals && w.beads is Some && (key.code == KeyCode::Enter || is_row_key(
        key.code,
        false,
    )) {
        silent(calm)
    } else if nav && on_goals && key.code == KeyCode::Enter && row is Some && trim(
        row.unwrap().text,
    ).len() > 0 {
        silent(PaneView { modal: Some(opened_modal(w, row.unwrap().text)), ..p })
    } else if !focused {
        silent(p)
    } else {
        let o = key_outcome(s, d, key, now);
        PaneStep {
            pane: PaneView { doc: Some(o.doc), edit: Some(o.state), ..p },
            actions: o.actions,
        }
    }
}

/// The editor's state, the initial one before the first key.
pub open spec fn edit_or_initial(w: WorkspaceState) -> EditView {
    match w.edit_state {
        Some(s) => s@,
        None => initial_edit(),
    }
}

/// A key in the detail pane of a workspace, which may have the focus or not.
pub open spec fn pane_step(
    w: WorkspaceState,
    focused: bool,
    key: KeyEvent,
    now: Moment,
    route: PeekRoute,
) -> PaneStep {
    let p = pane(w);
    if w.peek_state is Some {
        silent(peek_step(p, w.peek_state.unwrap(), key.code))
    } else if w.dispatch_modal is Some {
        let after = after_key(w.dispatch_modal.unwrap()@, key.code);
        silent(PaneView { modal: Some(after.0), outcome: Some(after.1), ..p })
    } else if w.trajectory is Some {
        document_step(w, focused, edit_or_initial(w), w.trajectory.unwrap()@, key, now, route)
    } else {
        silent(p)
    }
}

/// A key that would change a row which the task tracker owns, and does nothing.
pub open spec fn is_held(w: WorkspaceState, s: EditView, d: DocView, code: KeyCode) -> bool {
    s.mode == EditMode::Nav && section_is(d, s.section, SECTION_GOALS@) && (w.linear is Some
        && is_row_key(code, true) || w.beads is Some && is_row_key(code, false))
}

/// The states on which a key press has a meaning: where it reaches the editor, the
/// editor must know what to do.
pub open spec fn pane_key_defined(w: WorkspaceState, focused: bool, key: KeyEvent) -> bool {
    focused && w.dispatch_modal is None && w.peek_state is None && w.trajectory is Some && !is_held(
        w,
        edit_or_initial(w),
        w.trajectory.unwrap()@,
        key.code,
    ) ==> key_defined(edit_or_initial(w), w.trajectory.unwrap()@, key)
}

// ---------------------------------------------------------------------------
// Execution
// ---------------------------------------------------------------------------

fn open_peek(
    ws: &WorkspaceState,
    state: &TrajectoryEditState,
    doc: &TrajectoryDoc,
    route: &PeekRoute,
) -> (r: PeekState)
    requires
        state.cursor_section < doc.sections@.len(),
    ensures
        r@ == opened_peek(*ws, cursor_row(state@, doc@), *route),
{
    let items = &doc.sections[state.cursor_section].items;
    let home = ws.workspace.ref_id.clone();
    let mut surface_ref = ws.workspace.ref_id.clone();
    let mut label = ws.workspace.ref_id.clone();
    let mut id = String::from_str("");
    if state.cursor_item < items.len() {
        let item = &items[state.cursor_item];
        assert(cursor_row(state@, doc@) == Some(item@));
        match &item.surface_id {
            Some(sid) => {
                let tail = concat2(sid.as_str(), ")");
                surface_ref = sid.clone();
                label = concat3(item.text.as_str(), " (", tail.as_str());
                id = sid.clone();
            },
            None => {
                label = item.text.clone();
            },
        }
    } else {
        assert(cursor_row(state@, doc@) is None);
    }
    let source = if !ws.remote_surfaces.contains_key(id.as_str()) && route.effective.is_agent() {
        PeekSource::Agent {
            session_path: match &route.session_path {
                Some(p) => p.clone(),
                None => String::from_str(""),
            },
        }
    } else {
        PeekSource::Shell
    };
    let r = PeekState::new(home, surface_ref, label, source);
    assert(views(r.screen_buffer@) =~= Seq::<Seq<char>>::empty());
    r
}

/// Where a key on a task row of the given workspace ends, if not in the editor.
fn task_row_key(
    ws: &mut WorkspaceState,
    state: &mut TrajectoryEditState,
    doc: &TrajectoryDoc,
    code: KeyCode,
) -> (r: bool)
    requires
        section_is(doc@, old(state)@.section, SECTION_GOALS@),
    ensures
        ({
            let w = *old(ws);
            let row = cursor_row(old(state)@, doc@);
            let linear = w.linear is Some;
            let calm = EditView { pending_d: None, ..old(state)@ };
            let opens = linear && code == KeyCode::Enter;
            let held = linear && is_row_key(code, true) || w.beads is Some && (code
                == KeyCode::Enter || is_row_key(code, false));
            let goal = code == KeyCode::Enter && row is Some && trim(row.unwrap().text).len() > 0;
            &&& r == (opens || held || goal)
            &&& final(state)@ == (if opens || held {
                calm
            } else {
                old(state)@
            })
            &&& *final(ws) == (WorkspaceState {
                dispatch_modal: final(ws).dispatch_modal,
                linear_open_pending: final(ws).linear_open_pending,
                ..w
            })
            &&& opt_view(final(ws).linear_open_pending) == (if opens {
                match row {
                    Some(i) => url_for_row(w.linear.unwrap().issues@, i.text, 0),
                    None => None,
                }
            } else {
                opt_view(w.linear_open_pending)
            })
            &&& if !opens && !held && goal {
                final(ws).dispatch_modal is Some && final(ws).dispatch_modal.unwrap()@
                    == opened_modal(w, row.unwrap().text)
            } else {
                final(ws).dispatch_modal == w.dispatch_modal
            }
        }),
{
    let enter = match code {
        KeyCode::Enter => true,
        _ => false,
    };
    let items = &doc.sections[state.cursor_section].items;
    let row: Option<&Item> = if state.cursor_item < items.len() {
        assert(cursor_row(state@, doc@) == Some(items@[state.cursor_item as int]@));
        Some(&items[state.cursor_item])
    } else {
        assert(cursor_row(state@, doc@) is None);
        None
    };
    if let Some(linear) = &ws.linear {
        if enter {
            ws.linear_open_pending = match row {
                Some(item) => linear_desktop_url_for_row(linear, item.text.as_str()),
                None => None,
            };
            state.pending_d_at = None;
            return true;
        }
        if changes_row(code, true) {
            state.pending_d_at = None;
            return true;
        }
    }
    if ws.beads.is_some() && (enter || changes_row(code, false)) {
        state.pending_d_at = None;
        return true;
    }
    if let Some(item) = row {
        if enter && trim_chars(&chars_of(item.text.as_str())).len() > 0 {
            ws.dispatch_modal = Some(
                DispatchModal::new(
                    item.text.clone(),
                    ws.workspace.uuid.clone(),
                    ws.workspace.ref_id.clone(),
                    &ws.surfaces,
                ),
            );
            return true;
        }
    }
    false
}

#[verifier::rlimit(60)]
fn handle_document_key(
    ws: &mut WorkspaceState,
    focused: bool,
    doc: TrajectoryDoc,
    key: KeyEvent,
    now: Moment,
    route: &PeekRoute,
) -> (r: Vec<EditAction>)
    requires
        focused && !is_held(*old(ws), edit_or_initial(*old(ws)), doc@, key.code) ==> key_defined(
            edit_or_initial(*old(ws)),
            doc@,
            key,
        ),
    ensures
        only_pane(*old(ws), *final(ws)),
        (PaneStep { pane: pane(*final(ws)), actions: action_views(r@) }) == document_step(
            (WorkspaceState { trajectory: Some(doc), ..*old(ws) }),
            focused,
            edit_or_initial(*old(ws)),
            doc@,
            key,
            now,
            *route,
        ),
{
    let ghost before = *ws;
    let ghost whole = WorkspaceState { trajectory: Some(doc), ..before };
    let mut doc = doc;
    let mut state = match ws.edit_state.take() {
        Some(s) => s,
        None => TrajectoryEditState::default(),
    };
    let ghost s0 = state@;
    let ghost d0 = doc@;
    let nav = match state.mode {
        EditMode::Nav => true,
        EditMode::Insert { .. } => false,
    };
    let enter = match key.code {
        KeyCode::Enter => true,
        _ => false,
    };
    if nav && enter && doc.is_section(state.cursor_section, SECTION_CURRENT_SURFACES) {
        let peek = open_peek(ws, &state, &doc, route);
        ws.peek_state = Some(peek);
        ws.trajectory = Some(doc);
        ws.edit_state = Some(state);
        assert(pane(*ws) =~= document_step(whole, focused, s0, d0, key, now, *route).pane);
        return no_actions();
    }
    if nav && doc.is_section(state.cursor_section, SECTION_GOALS) {
        if task_row_key(ws, &mut state, &doc, key.code) {
            ws.trajectory = Some(doc);
            ws.edit_state = Some(state);
            assert(pane(*ws) =~= document_step(whole, focused, s0, d0, key, now, *route).pane);
            return no_actions();
        }
    }
    if !focused {
        ws.trajectory = Some(doc);
        ws.edit_state = Some(state);
        assert(pane(*ws) =~= document_step(whole, focused, s0, d0, key, now, *route).pane);
        return no_actions();
    }
    let actions = handle_key(&mut state, &mut doc, key, now);
    ws.trajectory = Some(doc);
    ws.edit_state = Some(state);
    assert(pane(*ws) =~= document_step(whole, focused, s0, d0, key, now, *route).pane);
    actions
}

/// What a key does to the pane of a workspace.
fn press_in_pane(
    ws: &mut WorkspaceState,
    focused: bool,
    key: KeyEvent,
    now: Moment,
    route: &PeekRoute,
) -> (r: Vec<EditAction>)
    requires
        pane_key_defined(*old(ws), focused, key),
    ensures
        only_pane(*old(ws), *final(ws)),
        (PaneStep { pane: pane(*final(ws)), actions: action_views(r@) }) == pane_step(
            *old(ws),
            focused,
            key,
            now,
            *route,
        ),
{
    if let Some(mut peek) = ws.peek_state.take() {
        match key.code {
            KeyCode::Esc => {},
            KeyCode::Enter => {
                ws.peek_yield_pending = true;
                ws.peek_state = Some(peek);
            },
            _ => {
                scroll_peek(&mut peek, key.code);
                ws.peek_state = Some(peek);
            },
        }
        return no_actions();
    }
    if let Some(mut modal) = ws.dispatch_modal.take() {
        let outcome = modal.handle_key(key);
        ws.dispatch_modal = Some(modal);
        ws.dispatch_pending_outcome = Some(outcome);
        return no_actions();
    }
    match ws.trajectory.take() {
        Some(doc) => handle_document_key(ws, focused, doc, key, now, route),
        None => no_actions(),
    }
}

/// A key in the detail pane of a workspace. The error of an earlier dispatch is no
/// longer shown. Returns the actions that the next save records.
pub fn handle_pane_key(
    ws: &mut WorkspaceState,
    focused: bool,
    key: KeyEvent,
    now: Moment,
    route: &PeekRoute,
) -> (r: Vec<EditAction>)
    requires
        pane_key_defined(*old(ws), focused, key),
    ensures
        only_pane((WorkspaceState { dispatch_error: None, ..*old(ws) }), *final(ws)),
        (PaneStep { pane: pane(*final(ws)), actions: action_views(r@) }) == pane_step(
            *old(ws),
            focused,
            key,
            now,
            *route,
        ),
{
    let actions = press_in_pane(ws, focused, key, now, route);
    ws.dispatch_error = None;
    actions
}

/// The position of a surface among those of the given kind; zero when it is not
/// among them.
pub open spec fn place_among(
    surfaces: Seq<SurfaceInfo>,
    kind: SurfaceKind,
    surface_ref: Seq<char>,
    i: int,
    seen: int,
) -> int
    decreases surfaces.len() - i,
{
    if i < 0 || i >= surfaces.len() {
        0
    } else if surfaces[i].kind != kind {
        place_among(surfaces, kind, surface_ref, i + 1, seen)
    } else if surfaces[i].ref_id@ == surface_ref {
        seen
    } else {
        place_among(surfaces, kind, surface_ref, i + 1, seen + 1)
    }
}

/// The position of a surface among those of the given kind, by which its session
/// log is told from theirs.
pub fn same_agent_index(surfaces: &Vec<SurfaceInfo>, kind: SurfaceKind, surface_ref: &str) -> (r:
    usize)
    ensures
        r == place_among(surfaces@, kind, surface_ref@, 0, 0),
{
    let mut seen: usize = 0;
    let mut i: usize = 0;
    while i < surfaces.len()
        invariant
            i <= surfaces@.len(),
            seen <= i,
            place_among(surfaces@, kind, surface_ref@, 0, 0) == place_among(
                surfaces@,
                kind,
                surface_ref@,
                i as int,
                seen as int,
            ),
        decreases surfaces@.len() - i,
    {
        if surfaces[i].kind == kind {
            if same(surfaces[i].ref_id.as_str(), surface_ref) {
                return seen;
            }
            seen += 1;
        }
        i += 1;
    }
    0
}

/// The kind that the multiplexer reports for a surface.
pub open spec fn reported_kind(surfaces: Seq<SurfaceInfo>, surface_ref: Seq<char>, i: int) -> SurfaceKind
    decreases surfaces.len() - i,
{
    if i < 0 || i >= surfaces.len() {
        SurfaceKind::Unknown
    } else if surfaces[i].ref_id@ == surface_ref {
        surfaces[i].kind
    } else {
        reported_kind(surfaces, surface_ref, i + 1)
    }
}

fn editor_accepts(
    ws: &WorkspaceState,
    state: &TrajectoryEditState,
    doc: &TrajectoryDoc,
    key: KeyEvent,
) -> (r: bool)
    ensures
        r == (!is_held(*ws, state@, doc@, key.code) ==> key_defined(state@, doc@, key)),
{
    let nav = match state.mode {
        EditMode::Nav => true,
        EditMode::Insert { .. } => false,
    };
    let held = nav && doc.is_section(state.cursor_section, SECTION_GOALS) && (ws.linear.is_some()
        && changes_row(key.code, true) || ws.beads.is_some() && changes_row(key.code, false));
    held || key_is_defined(state, doc, key)
}

impl App {
    /// Whether a key press in the detail pane has a meaning.
    pub fn accepts_key(&self, key: KeyEvent) -> (r: bool)
        ensures
            r == (self.selected < self.workspaces@.len() ==> pane_key_defined(
                self.workspaces@[self.selected as int],
                self.focus == Focus::Detail,
                key,
            )),
    {
        if self.selected >= self.workspaces.len() || self.focus != Focus::Detail {
            return true;
        }
        let ws = &self.workspaces[self.selected];
        if ws.dispatch_modal.is_some() || ws.peek_state.is_some() {
            return true;
        }
        match &ws.trajectory {
            None => true,
            Some(doc) => match &ws.edit_state {
                Some(state) => editor_accepts(ws, state, doc, key),
                None => editor_accepts(ws, &TrajectoryEditState::default(), doc, key),
            },
        }
    }

    /// The surface that Enter would peek at, and the kind that is reported for it.
    pub fn peek_target(&self) -> (r: Option<(String, SurfaceKind)>)
        ensures
            match r {
                Some(t) => self.selected < self.workspaces@.len() && ({
                    let w = self.workspaces@[self.selected as int];
                    &&& w.trajectory is Some
                    &&& section_is(
                        w.trajectory.unwrap()@,
                        edit_or_initial(w).section,
                        SECTION_CURRENT_SURFACES@,
                    )
                    &&& t.0@ == row_surface(
                        cursor_row(edit_or_initial(w), w.trajectory.unwrap()@),
                    )
                    &&& t.1 == reported_kind(w.surfaces@, t.0@, 0)
                }),
                None => self.selected >= self.workspaces@.len() || ({
                    let w = self.workspaces@[self.selected as int];
                    w.trajectory is None || !section_is(
                        w.trajectory.unwrap()@,
                        edit_or_initial(w).section,
                        SECTION_CURRENT_SURFACES@,
                    )
                }),
            },
    {
        let ws = match self.selected_workspace() {
            Some(w) => w,
            None => {
                return None;
            },
        };
        let doc = match &ws.trajectory {
            Some(d) => d,
            None => {
                return None;
            },
        };
        let (section, item): (usize, usize) = match &ws.edit_state {
            Some(s) => (s.cursor_section, s.cursor_item),
            None => (0, 0),
        };
        if !doc.is_section(section, SECTION_CURRENT_SURFACES) {
            return None;
        }
        let ghost e = edit_or_initial(*ws);
        let items = &doc.sections[section].items;
        let id = if item < items.len() {
            assert(cursor_row(e, doc@) == Some(items@[item as int]@));
            match &items[item].surface_id {
                Some(id) => id.clone(),
                None => String::from_str(""),
            }
        } else {
            assert(cursor_row(e, doc@) is None);
            String::from_str("")
        };
        let mut kind = SurfaceKind::Unknown;
        let mut found = false;
        let mut i: usize = 0;
        while i < ws.surfaces.len() && !found
            invariant
                i <= ws.surfaces@.len(),
                reported_kind(ws.surfaces@, id@, 0) == (if found {
                    kind
                } else {
                    reported_kind(ws.surfaces@, id@, i as int)
                }),
                !found ==> kind == SurfaceKind::Unknown,
            decreases ws.surfaces@.len() - i,
        {
            if same(ws.surfaces[i].ref_id.as_str(), id.as_str()) {
                kind = ws.surfaces[i].kind;
                found = true;
            }
            i += 1;
        }
        Some((id, kind))
    }

    /// A key for the detail pane of the selected workspace. The error of an earlier
    /// dispatch is no longer shown. Returns the actions that the next save records:
    /// none while the pane is not focused, and the document is not edited then.
    pub fn handle_trajectory_key(&mut self, key: KeyEvent, now: Moment, route: &PeekRoute) -> (r:
        Vec<EditAction>)
        requires
            old(self).selected < old(self).workspaces@.len() ==> pane_key_defined(
                old(self).workspaces@[old(self).selected as int],
                old(self).focus == Focus::Detail,
                key,
            ),
        ensures
            old(self).well_formed() ==> final(self).well_formed(),
            only_workspaces(*old(self), *final(self)),
            final(self).workspaces@.len() == old(self).workspaces@.len(),
            forall|j: int|
                0 <= j < old(self).workspaces@.len() && j != old(self).selected ==> (
                #[trigger] final(self).workspaces@[j]) == old(self).workspaces@[j],
            old(self).selected >= old(self).workspaces@.len() ==> r@.len() == 0,
            old(self).focus != Focus::Detail ==> r@.len() == 0,
            old(self).selected < old(self).workspaces@.len() ==> ({
                let i = old(self).selected as int;
                &&& only_pane(
                    (WorkspaceState { dispatch_error: None, ..old(self).workspaces@[i] }),
                    final(self).workspaces@[i],
                )
                &&& (PaneStep {
                    pane: pane(final(self).workspaces@[i]),
                    actions: action_views(r@),
                }) == pane_step(
                    old(self).workspaces@[i],
                    old(self).focus == Focus::Detail,
                    key,
                    now,
                    *route,
                )
            }),
    {
        let idx: usize = self.selected;
        let focused = self.focus == Focus::Detail;
        if idx < self.workspaces.len() {
            let actions = handle_pane_key(&mut self.workspaces[idx], focused, key, now, route);
            assert(action_views(actions@).len() == actions@.len());
            actions
        } else {
            Vec::new()
        }
    }
}

/// A row that the task tracker owns is read-only: with the cursor on the tasks of a
/// workspace that has a tracker, no editing key changes the document or emits an
/// action.
pub proof fn tracker_rows_are_read_only(
    w: WorkspaceState,
    focused: bool,
    key: KeyEvent,
    now: Moment,
    route: PeekRoute,
)
    requires
        w.dispatch_modal is None,
        w.peek_state is None,
        w.trajectory is Some,
        edit_or_initial(w).mode == EditMode::Nav,
        section_is(w.trajectory.unwrap()@, edit_or_initial(w).section, SECTION_GOALS@),
        w.linear is Some && (is_row_key(key.code, true) || key.code == KeyCode::Enter)
            || w.beads is Some && (is_row_key(key.code, false) || key.code == KeyCode::Enter),
    ensures
        pane_step(w, focused, key, now, route).actions.len() == 0,
        pane_step(w, focused, key, now, route).pane.doc == Some(w.trajectory.unwrap()@),
        pane_step(w, focused, key, now, route).pane.modal is None,
        pane_step(w, focused, key, now, route).pane.peek is None,
{
    crate::trajectory::lemma_section_names_differ();
}

/// Without the focus no key edits the document, so no edit goes unrecorded.
pub proof fn only_a_focused_pane_is_edited(
    w: WorkspaceState,
    key: KeyEvent,
    now: Moment,
    route: PeekRoute,
)
    ensures
        pane_step(w, false, key, now, route).actions.len() == 0,
        pane_step(w, false, key, now, route).pane.doc == pane(w).doc,
{
}

/// In peek mode no key reaches the document.
pub proof fn peek_protects_the_document(
    w: WorkspaceState,
    focused: bool,
    key: KeyEvent,
    now: Moment,
    route: PeekRoute,
)
    requires
        w.peek_state is Some,
    ensures
        pane_step(w, focused, key, now, route).pane.doc == pane(w).doc,
        pane_step(w, focused, key, now, route).pane.edit == pane(w).edit,
        pane_step(w, focused, key, now, route).actions.len() == 0,
{
}

/// Peek mode and the dispatch modal are never open at once: no key opens one over the
/// other.
pub proof fn one_overlay_at_a_time(
    w: WorkspaceState,
    focused: bool,
    key: KeyEvent,
    now: Moment,
    route: PeekRoute,
)
    requires
        w.dispatch_modal is None || w.peek_state is None,
    ensures
        pane_step(w, focused, key, now, route).pane.modal is None || pane_step(
            w,
            focused,
            key,
            now,
            route,
        ).pane.peek is None,
{
}

/// A row that names no surface is peeked at through its workspace, and one that does
/// through exactly that surface.
pub proof fn a_peek_reads_the_rows_surface(w: WorkspaceState, row: ItemView, route: PeekRoute)
    ensures
        opened_peek(w, Some(row), route).workspace_ref == w.workspace.ref_id@,
        row.surface_id is None ==> opened_peek(w, Some(row), route).surface_ref
            == w.workspace.ref_id@,
        row.surface_id is Some ==> opened_peek(w, Some(row), route).surface_ref
            == row.surface_id.unwrap(),
{
}

/// A surface that is bound to a remote session is never shown from a local session
/// log, whatever is known of it.
pub proof fn bound_surfaces_show_their_own_screen(
    w: WorkspaceState,
    row: Option<ItemView>,
    route: PeekRoute,
)
    requires
        w.remote_surfaces.has_key(row_surface(row)),
    ensures
        opened_peek(w, row, route).session_path is None,
{
}

} // verus!
