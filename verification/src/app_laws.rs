//! What keys, captures and files do to the dashboard.
use crate::agents::AgentTable;
use crate::app::{
    captured, dashed, first_window, further_down, further_up, grabs_of, highlighted, info_parts,
    is_live, next_of, previous_of, remembered, screen_task, shown_lines, slug_with, summarized,
    summary_is_due, took_reading, undash_end, undash_start, useful, App, ScreenUpdate,
};
use crate::app_keys::{pane, pane_step, place_among, reported_kind, PeekRoute};
use crate::assoc::lemma_key_from;
use crate::clock::Moment;
use crate::dismissal::kept_selection;
use crate::dispatch_modal::{after_key, fresh_options};
use crate::keys::{KeyCode, KeyEvent};
use crate::mesh::RemoteFreshness;
use crate::peek_view::PeekState;
use crate::screen::reads;
use crate::search::join;
use crate::surface::{SurfaceInfo, SurfaceKind};
use crate::tasks::{linear_line, url_for_row, LinearIssue};
use crate::text::{lines, opt_view, trim, views};
use crate::trajectory::DocView;
use crate::trajectory_edit::{key_outcome, EditMode, EditView};
use crate::workspace::{Focus, SessionFile, Summary, WorkspaceState};
use vstd::prelude::*;

verus! {

// ---------------------------------------------------------------------------
// Keys in peek mode
// ---------------------------------------------------------------------------

/// In peek mode `j` and down go three lines down, `k` and up three lines up, space and
/// `-` ten, none beyond the ends; `g` goes to the top and `G` to the last line, from where
/// the view follows. Nothing else of the workspace changes.
pub proof fn peek_keys_scroll(
    w: WorkspaceState,
    focused: bool,
    key: KeyEvent,
    now: Moment,
    route: PeekRoute,
    p: PeekState,
)
    requires
        w.peek_state == Some(p),
        p.screen_buffer@.len() <= u16::MAX,
        p.screen_buffer@.len() > 0,
        p.scroll_offset < p.screen_buffer@.len(),
    ensures
        ({
            let step = pane_step(w, focused, key, now, route);
            let q = step.pane.peek;
            let from = p.scroll_offset as int;
            let last = p.screen_buffer@.len() - 1;
            let to = if q is Some {
                q.unwrap().offset as int
            } else {
                from
            };
            &&& key.code != KeyCode::Esc ==> q is Some && q.unwrap().buffer == views(
                p.screen_buffer@,
            ) && q.unwrap().surface_ref == p.surface_ref@
            &&& key.code == KeyCode::Char('j') || key.code == KeyCode::Down ==> to == (if from + 3
                <= last {
                from + 3
            } else {
                last
            }) && !q.unwrap().follow
            &&& key.code == KeyCode::Char('k') || key.code == KeyCode::Up ==> to == (if from >= 3 {
                from - 3
            } else {
                0
            }) && !q.unwrap().follow
            &&& key.code == KeyCode::Char(' ') ==> to == (if from + 10 <= last {
                from + 10
            } else {
                last
            }) && !q.unwrap().follow
            &&& key.code == KeyCode::Char('-') ==> to == (if from >= 10 {
                from - 10
            } else {
                0
            }) && !q.unwrap().follow
            &&& key.code == KeyCode::Char('g') ==> to == 0 && !q.unwrap().follow
            &&& key.code == KeyCode::Char('G') ==> to == last && q.unwrap().follow
            &&& step.pane.doc == pane(w).doc
            &&& step.pane.edit == pane(w).edit
            &&& step.pane.modal == pane(w).modal
            &&& step.actions.len() == 0
        }),
{
}

/// Escape leaves peek mode, and enter asks to go to the surface.
pub proof fn escape_and_enter_leave_the_peek(
    w: WorkspaceState,
    focused: bool,
    key: KeyEvent,
    now: Moment,
    route: PeekRoute,
)
    requires
        w.peek_state is Some,
    ensures
        key.code == KeyCode::Esc ==> pane_step(w, focused, key, now, route).pane.peek is None
            && pane_step(w, focused, key, now, route).pane.yielding == w.peek_yield_pending,
        key.code == KeyCode::Enter ==> pane_step(w, focused, key, now, route).pane.yielding
            && pane_step(w, focused, key, now, route).pane.peek == pane(w).peek,
        key.code != KeyCode::Esc && key.code != KeyCode::Enter ==> pane_step(
            w,
            focused,
            key,
            now,
            route,
        ).pane.yielding == w.peek_yield_pending,
{
}

/// While the modal is open the keys go to it, and its answer is kept for the caller.
pub proof fn an_open_modal_takes_the_keys(
    w: WorkspaceState,
    focused: bool,
    key: KeyEvent,
    now: Moment,
    route: PeekRoute,
)
    requires
        w.peek_state is None,
        w.dispatch_modal is Some,
    ensures
        ({
            let step = pane_step(w, focused, key, now, route);
            let after = after_key(w.dispatch_modal.unwrap()@, key.code);
            &&& step.pane.modal == Some(after.0)
            &&& step.pane.outcome == Some(after.1)
            &&& step.pane.doc == pane(w).doc
            &&& step.pane.edit == pane(w).edit
            &&& step.actions.len() == 0
        }),
{
}

// ---------------------------------------------------------------------------
// Keys in the document
// ---------------------------------------------------------------------------

/// The keys reach the document, with the editor's state `s`.
pub open spec fn in_document(w: WorkspaceState, s: EditView, d: DocView) -> bool {
    &&& w.peek_state is None
    &&& w.dispatch_modal is None
    &&& w.trajectory is Some && w.trajectory.unwrap()@ == d
    &&& w.edit_state is Some && w.edit_state.unwrap()@ == s
}

/// The cursor is on a row of the section with the given name.
pub open spec fn is_on_row(s: EditView, d: DocView, name: Seq<char>) -> bool {
    &&& s.mode == EditMode::Nav
    &&& 0 <= s.section < d.sections.len()
    &&& d.sections[s.section].name == name
    &&& 0 <= s.item < d.sections[s.section].items.len()
}

/// Enter on a surface's row opens a peek of that very surface: its session log where an
/// agent runs in it, unless a remote session is bound to it, and else its screen.
pub proof fn enter_peeks_at_the_rows_surface(
    w: WorkspaceState,
    focused: bool,
    s: EditView,
    d: DocView,
    key: KeyEvent,
    now: Moment,
    route: PeekRoute,
    id: Seq<char>,
)
    requires
        in_document(w, s, d),
        is_on_row(s, d, "Current surfaces"@),
        d.sections[s.section].items[s.item].surface_id == Some(id),
        key.code == KeyCode::Enter,
    ensures
        ({
            let step = pane_step(w, focused, key, now, route);
            let q = step.pane.peek.unwrap();
            let row = d.sections[s.section].items[s.item];
            let bound = exists|i: int|
                0 <= i < w.remote_surfaces.entries@.len() && (
                #[trigger] w.remote_surfaces.entries@[i]).0@ == id;
            let agent = route.effective == SurfaceKind::Claude || route.effective
                == SurfaceKind::Codex || route.effective == SurfaceKind::OtherAgent;
            &&& step.pane.peek is Some
            &&& q.surface_ref == id
            &&& q.workspace_ref == w.workspace.ref_id@
            &&& q.surface_label == row.text + " ("@ + (id + ")"@)
            &&& q.offset == 0 && q.buffer.len() == 0 && q.follow && !q.polling
            &&& agent && !bound && route.session_path is Some ==> q.session_path == Some(
                route.session_path.unwrap()@,
            )
            &&& agent && !bound && route.session_path is None ==> q.session_path == Some(""@)
            &&& !agent || bound ==> q.session_path is None
            &&& step.pane.doc == pane(w).doc
            &&& step.actions.len() == 0
        }),
{
    lemma_key_from(w.remote_surfaces.entries@, id, 0);
}

/// Enter on a task opens the modal that sends the task to a terminal of the workspace,
/// unless a tracker owns the tasks or the row is blank.
pub proof fn enter_dispatches_the_task(
    w: WorkspaceState,
    focused: bool,
    s: EditView,
    d: DocView,
    key: KeyEvent,
    now: Moment,
    route: PeekRoute,
)
    requires
        in_document(w, s, d),
        is_on_row(s, d, "Beads"@),
        key.code == KeyCode::Enter,
        w.linear is None,
        w.beads is None,
        trim(d.sections[s.section].items[s.item].text).len() > 0,
    ensures
        ({
            let step = pane_step(w, focused, key, now, route);
            let m = step.pane.modal.unwrap();
            &&& step.pane.modal is Some
            &&& m.goal_text == d.sections[s.section].items[s.item].text
            &&& m.workspace_uuid == w.workspace.uuid@
            &&& m.workspace_ref == w.workspace.ref_id@
            &&& m.options == fresh_options(w.surfaces@)
            &&& m.view is PickSurface
            &&& m.error is None
            &&& step.pane.doc == pane(w).doc
            &&& step.actions.len() == 0
        }),
{
    crate::trajectory::lemma_section_names_differ();
}

proof fn lemma_url(issues: Seq<LinearIssue>, row: Seq<char>, i: int, k: int)
    requires
        0 <= i,
    ensures
        i <= k < issues.len() && linear_line(issues[k]) == row && (forall|j: int|
            i <= j < k ==> linear_line(#[trigger] issues[j]) != row) ==> url_for_row(issues, row, i)
            == opt_view(issues[k].desktop_url),
        (forall|j: int| i <= j < issues.len() ==> linear_line(#[trigger] issues[j]) != row)
            ==> url_for_row(issues, row, i) is None,
    decreases issues.len() - i,
{
    if i < issues.len() {
        lemma_url(issues, row, i + 1, k);
    }
}

/// Enter on a row of Linear asks to open the issue that the row shows; keys that would
/// change such a row do nothing.
pub proof fn enter_opens_the_rows_issue(
    w: WorkspaceState,
    focused: bool,
    s: EditView,
    d: DocView,
    key: KeyEvent,
    now: Moment,
    route: PeekRoute,
    k: int,
)
    requires
        in_document(w, s, d),
        is_on_row(s, d, "Beads"@),
        w.linear is Some,
    ensures
        ({
            let step = pane_step(w, focused, key, now, route);
            let issues = w.linear.unwrap().issues@;
            let row = d.sections[s.section].items[s.item].text;
            &&& key.code == KeyCode::Enter && 0 <= k < issues.len() && linear_line(issues[k])
                == row && (forall|j: int|
                0 <= j < k ==> linear_line(#[trigger] issues[j]) != row) ==> step.pane.link
                == opt_view(issues[k].desktop_url)
            &&& key.code == KeyCode::Enter || key.code == KeyCode::Char(' ') || key.code
                == KeyCode::Char('x') || key.code == KeyCode::Char('X') || key.code
                == KeyCode::Char('d') || key.code == KeyCode::Char('o') || key.code
                == KeyCode::Char('O') || key.code == KeyCode::Char('i') || key.code
                == KeyCode::Char('J') || key.code == KeyCode::Char('K') ==> step.pane.doc == pane(
                w,
            ).doc && step.actions.len() == 0 && step.pane.modal is None
        }),
{
    crate::trajectory::lemma_section_names_differ();
    lemma_url(w.linear.unwrap().issues@, d.sections[s.section].items[s.item].text, 0, k);
}

/// Every other key goes to the editor while the pane has the focus, and nowhere while it
/// has not.
pub proof fn other_keys_go_to_the_editor(
    w: WorkspaceState,
    focused: bool,
    s: EditView,
    d: DocView,
    key: KeyEvent,
    now: Moment,
    route: PeekRoute,
)
    requires
        in_document(w, s, d),
        s.mode is Insert || key.code != KeyCode::Enter && (0 <= s.section < d.sections.len()
            ==> d.sections[s.section].name != "Beads"@) || key.code != KeyCode::Enter && w.linear
            is None && w.beads is None,
    ensures
        ({
            let step = pane_step(w, focused, key, now, route);
            let o = key_outcome(s, d, key, now);
            &&& focused ==> step.pane.doc == Some(o.doc) && step.pane.edit == Some(o.state)
                && step.actions == o.actions
            &&& !focused ==> step.pane == pane(w) && step.actions.len() == 0
        }),
{
}

// ---------------------------------------------------------------------------
// Selection
// ---------------------------------------------------------------------------

/// The next workspace is the one below, after the last the first; the previous one is the
/// one above, before the first the last.
pub proof fn selection_moves_by_one(selected: int, n: int)
    requires
        0 <= selected < n,
    ensures
        selected + 1 < n ==> next_of(selected, n) == selected + 1,
        selected + 1 == n ==> next_of(selected, n) == 0,
        selected > 0 ==> previous_of(selected, n) == selected - 1,
        selected == 0 ==> previous_of(selected, n) == n - 1,
{
    crate::app::selection_steps_cancel_out(selected, n);
    if selected + 1 < n {
        vstd::arithmetic::div_mod::lemma_small_mod((selected + 1) as nat, n as nat);
    } else {
        vstd::arithmetic::div_mod::lemma_mod_self_0(n);
    }
    if selected > 0 {
        vstd::arithmetic::div_mod::lemma_mod_sub_multiples_vanish(selected + n - 1, n);
        vstd::arithmetic::div_mod::lemma_small_mod((selected - 1) as nat, n as nat);
    } else {
        vstd::arithmetic::div_mod::lemma_small_mod((n - 1) as nat, n as nat);
    }
}

/// The highlighted surface is that of the row under the cursor in the section of surfaces;
/// there is none elsewhere.
pub proof fn the_cursors_surface_is_highlighted(w: WorkspaceState, d: DocView)
    requires
        w.trajectory is Some,
        w.trajectory.unwrap()@ == d,
        w.edit_state is Some,
    ensures
        ({
            let s = w.edit_state.unwrap().cursor_section as int;
            let i = w.edit_state.unwrap().cursor_item as int;
            let there = s < d.sections.len() && d.sections[s].name == "Current surfaces"@ && i
                < d.sections[s].items.len();
            &&& there ==> highlighted(w) == d.sections[s].items[i].surface_id
            &&& !there ==> highlighted(w) is None
        }),
{
}

// ---------------------------------------------------------------------------
// The line of identities and warnings
// ---------------------------------------------------------------------------

proof fn lemma_first_window(s: Seq<WorkspaceState>, i: int, k: int)
    requires
        0 <= i,
    ensures
        i <= k < s.len() && s[k].workspace.window_id is Some && (forall|j: int|
            i <= j < k ==> (#[trigger] s[j]).workspace.window_id is None) ==> first_window(s, i)
            == opt_view(s[k].workspace.window_id),
        (forall|j: int| i <= j < s.len() ==> (#[trigger] s[j]).workspace.window_id is None)
            ==> first_window(s, i) is None,
    decreases s.len() - i,
{
    if i < s.len() {
        lemma_first_window(s, i + 1, k);
    }
}

/// The line names the selected workspace and the first known window; the surface under the
/// cursor stands before them while the detail pane has the focus, and the warnings behind.
pub proof fn the_line_names_what_is_selected(
    app: App,
    k: int,
    surface: Seq<char>,
    warning: Seq<char>,
    mesh: Seq<char>,
)
    requires
        app.selected < app.workspaces@.len(),
        0 <= k < app.workspaces@.len(),
        app.workspaces@[k].workspace.window_id is Some,
        forall|j: int| 0 <= j < k ==> (#[trigger] app.workspaces@[j]).workspace.window_id is None,
        highlighted(app.workspaces@[app.selected as int]) == Some(surface),
        opt_view(app.global_warning) == Some(warning),
        opt_view(app.mesh_warning) == Some(mesh),
    ensures
        ({
            let uuid = app.workspaces@[app.selected as int].workspace.uuid@;
            let window = app.workspaces@[k].workspace.window_id.unwrap()@;
            &&& app.focus == Focus::Detail ==> info_parts(app) == seq![
                "surface "@ + surface,
                "workspace "@ + uuid,
                "window "@ + window,
                "⚠ "@ + warning,
                "⚠ "@ + mesh,
            ]
            &&& app.focus == Focus::Sidebar ==> info_parts(app) == seq![
                "workspace "@ + uuid,
                "window "@ + window,
                "⚠ "@ + warning,
                "⚠ "@ + mesh,
            ]
        }),
{
    lemma_first_window(app.workspaces@, 0, k);
}

/// Without warnings, surface or window the line only names the workspace.
pub proof fn the_line_leaves_out_what_is_unknown(app: App)
    requires
        app.selected < app.workspaces@.len(),
        app.focus == Focus::Sidebar,
        forall|j: int|
            0 <= j < app.workspaces@.len() ==> (#[trigger] app.workspaces@[j]).workspace.window_id
                is None,
        app.global_warning is None,
        app.mesh_warning is None,
    ensures
        info_parts(app) == seq![
            "workspace "@ + app.workspaces@[app.selected as int].workspace.uuid@,
        ],
{
    lemma_first_window(app.workspaces@, 0, 0);
}

// ---------------------------------------------------------------------------
// Notes
// ---------------------------------------------------------------------------

/// `n` dashes.
pub open spec fn dashes(n: nat) -> Seq<char> {
    Seq::new(n, |i: int| '-')
}

proof fn lemma_undash_start(n: nat, s: Seq<char>)
    requires
        s.len() > 0 ==> s[0] != '-',
    ensures
        undash_start(dashes(n) + s) == s,
    decreases n,
{
    let t = dashes(n) + s;
    if n > 0 {
        assert(t[0] == '-');
        assert(t.skip(1) =~= dashes((n - 1) as nat) + s);
        lemma_undash_start((n - 1) as nat, s);
    } else {
        assert(t =~= s);
    }
}

proof fn lemma_undash_end(s: Seq<char>, n: nat)
    requires
        s.len() > 0 ==> s.last() != '-',
    ensures
        undash_end(s + dashes(n)) == s,
    decreases n,
{
    let t = s + dashes(n);
    if n > 0 {
        assert(t.last() == '-');
        assert(t.drop_last() =~= s + dashes((n - 1) as nat));
        lemma_undash_end(s, (n - 1) as nat);
    } else {
        assert(t =~= s);
    }
}

/// A file name keeps letters, digits, dashes and underscores in their places and puts a
/// dash for anything else; dashes at its ends are dropped.
pub proof fn a_file_name_keeps_letters_and_digits(
    name: Seq<char>,
    letters: Seq<bool>,
    a: nat,
    s: Seq<char>,
    b: nat,
)
    requires
        letters.len() == name.len(),
        name.len() == a + s.len() + b,
        s.len() > 0,
        s[0] != '-',
        s.last() != '-',
        forall|i: int| 0 <= i < name.len() ==> ({
            let kept = #[trigger] letters[i] || name[i] == '-' || name[i] == '_';
            let c = if kept {
                name[i]
            } else {
                '-'
            };
            if i < a {
                c == '-'
            } else if i < a + s.len() {
                c == s[i - a]
            } else {
                c == '-'
            }
        }),
    ensures
        slug_with(name, letters) == s,
{
    let d = dashed(name, letters);
    assert forall|i: int| 0 <= i < d.len() implies d[i] == (dashes(a) + (s + dashes(b)))[i] by {
        assert(letters[i] == letters[i]);
    }
    assert(d =~= dashes(a) + (s + dashes(b)));
    assert((s + dashes(b))[0] == s[0]);
    lemma_undash_start(a, s + dashes(b));
    lemma_undash_end(s, b);
}

/// Blank text counts as none, and any other is taken as it is.
pub proof fn blank_text_counts_as_none(t: String)
    ensures
        trim(t@).len() > 0 ==> useful(Some(t)) == Some(t),
        trim(t@).len() == 0 ==> useful(Some(t)) is None,
        useful(None) is None,
{
}

// ---------------------------------------------------------------------------
// Captures
// ---------------------------------------------------------------------------

/// Of a screen its last fifteen lines are shown.
pub proof fn the_last_lines_are_shown(screen: Seq<char>)
    ensures
        lines(screen).len() <= 15 ==> shown_lines(screen) == lines(screen),
        lines(screen).len() > 15 ==> shown_lines(screen) == lines(screen).subrange(
            lines(screen).len() - 15,
            lines(screen).len() as int,
        ),
{
    assert(lines(screen).skip(0) =~= lines(screen));
}

/// A capture ends the loading. A new screen replaces what was read from the old one, and a
/// new verdict the old one; what is missing leaves what was there.
pub proof fn a_capture_replaces_what_it_brings(
    w: WorkspaceState,
    u: ScreenUpdate,
    agents: AgentTable,
    r: WorkspaceState,
)
    requires
        captured(w, u, agents, r),
    ensures
        !r.loading,
        u.screen is Some ==> reads(u.screen.unwrap()@, agents, r.screen_insights)
            && r.screen_preview is Some && r.screen_preview.unwrap()@ == join(
            shown_lines(u.screen.unwrap()@),
            "\n"@,
        ),
        u.screen is None ==> r.screen_insights == w.screen_insights && r.screen_preview
            == w.screen_preview,
        u.classification is Some ==> r.classification == u.classification,
        u.classification is None ==> r.classification == w.classification,
        r.workspace == w.workspace,
        r.session == w.session,
        r.surfaces == w.surfaces,
        r.trajectory == w.trajectory,
        r.mux_status == w.mux_status,
{
}

/// A summary is kept and ends the summarizing; an attached session takes over its
/// trajectory and next steps and nothing else.
pub proof fn a_summary_is_taken_over(w: WorkspaceState, s: Summary, r: WorkspaceState)
    requires
        summarized(w, s, r),
    ensures
        !r.summarizing,
        r.summary == Some(s),
        w.session is Some ==> r.session is Some && r.session.unwrap().trajectory == Some(
            s.trajectory,
        ) && r.session.unwrap().next_steps@ == s.next_steps@ && r.session.unwrap().bullets
            == w.session.unwrap().bullets && r.session.unwrap().path == w.session.unwrap().path
            && r.session.unwrap().frontmatter == w.session.unwrap().frontmatter,
        w.session is None ==> r.session is None,
        r.workspace == w.workspace,
        r.trajectory == w.trajectory,
{
}

/// A screen is classified only where a remote client is bound to no session.
pub proof fn a_lone_client_is_classified(w: WorkspaceState)
    ensures
        screen_task(w).workspace_uuid == w.workspace.uuid,
        screen_task(w).ref_id == w.workspace.ref_id,
        screen_task(w).classify <==> exists|i: int|
            0 <= i < w.surfaces@.len() && (#[trigger] w.surfaces@[i]).kind == SurfaceKind::Remote
                && forall|j: int|
                0 <= j < w.remote_surfaces.entries@.len() ==> (
                #[trigger] w.remote_surfaces.entries@[j]).0@ != w.surfaces@[i].ref_id@,
{
    assert forall|i: int| 0 <= i < w.surfaces@.len() implies w.remote_surfaces.has_key(
        (#[trigger] w.surfaces@[i]).ref_id@,
    ) == !(forall|j: int|
        0 <= j < w.remote_surfaces.entries@.len() ==> (
        #[trigger] w.remote_surfaces.entries@[j]).0@ != w.surfaces@[i].ref_id@) by {
        lemma_key_from(w.remote_surfaces.entries@, w.surfaces@[i].ref_id@, 0);
    }
}

/// A terminal can be captured where it is not bound to a remote session.
pub open spec fn is_grabbed(w: WorkspaceState, s: SurfaceInfo) -> bool {
    s.tty is Some && forall|j: int|
        0 <= j < w.remote_surfaces.entries@.len() ==> (#[trigger] w.remote_surfaces.entries@[j]).0@
            != s.ref_id@
}

proof fn lemma_grabs(w: WorkspaceState, n: int)
    requires
        0 <= n <= w.surfaces@.len(),
    ensures
        grabs_of(w, n) == w.surfaces@.take(n).filter(|s: SurfaceInfo| is_grabbed(w, s)).map_values(
            |s: SurfaceInfo| (w.workspace.uuid@, s.ref_id@, s.tty.unwrap()@),
        ),
    decreases n,
{
    reveal(Seq::filter);
    let f = |s: SurfaceInfo| (w.workspace.uuid@, s.ref_id@, s.tty.unwrap()@);
    let p = |s: SurfaceInfo| is_grabbed(w, s);
    let all = w.surfaces@;
    if n > 0 {
        lemma_grabs(w, n - 1);
        lemma_key_from(w.remote_surfaces.entries@, all[n - 1].ref_id@, 0);
        assert(all.take(n).drop_last() =~= all.take(n - 1));
        assert(all.take(n).last() == all[n - 1]);
        let before = all.take(n - 1).filter(p);
        assert(before.push(all[n - 1]).map_values(f) =~= before.map_values(f).push(f(all[n - 1])));
        assert(is_grabbed(w, all[n - 1]) == (all[n - 1].tty is Some && !w.remote_surfaces.has_key(
            all[n - 1].ref_id@,
        )));
    } else {
        assert(all.take(0).len() == 0);
        assert(all.take(0).filter(p).map_values(f) =~= Seq::empty());
    }
}

/// The terminals that can be captured are listed in order, each with its workspace and
/// surface.
pub proof fn free_terminals_are_captured(w: WorkspaceState)
    ensures
        grabs_of(w, w.surfaces@.len() as int) == w.surfaces@.filter(
            |s: SurfaceInfo| is_grabbed(w, s),
        ).map_values(|s: SurfaceInfo| (w.workspace.uuid@, s.ref_id@, s.tty.unwrap()@)),
{
    lemma_grabs(w, w.surfaces@.len() as int);
    assert(w.surfaces@.take(w.surfaces@.len() as int) =~= w.surfaces@);
}

// ---------------------------------------------------------------------------
// Session files
// ---------------------------------------------------------------------------

/// A session file goes to the workspace that it names. A change of its progress is
/// reported; the same progress, or a first reading, is not.
pub proof fn a_session_file_goes_to_its_workspace(
    a: App,
    sf: SessionFile,
    r: Option<Seq<char>>,
    b: App,
    i: int,
)
    requires
        sf.frontmatter.workspace_id is Some,
        took_reading(a, Some(sf), r, b),
        0 <= i < a.workspaces@.len(),
        a.workspaces@[i].workspace.uuid@ == sf.frontmatter.workspace_id.unwrap()@,
        forall|j: int|
            i < j < a.workspaces@.len() ==> (#[trigger] a.workspaces@[j]).workspace.uuid@
                != sf.frontmatter.workspace_id.unwrap()@,
    ensures
        b.workspaces@.len() == a.workspaces@.len(),
        b.workspaces@[i].session == Some(sf),
        b.workspaces@[i].workspace == a.workspaces@[i].workspace,
        forall|j: int|
            0 <= j < a.workspaces@.len() && j != i ==> (#[trigger] b.workspaces@[j])
                == a.workspaces@[j],
        remembered(a, sf.path@) is None ==> r is None,
        remembered(a, sf.path@) == Some(views(sf.bullets@)) ==> r is None,
        remembered(a, sf.path@) is Some && remembered(a, sf.path@) != Some(views(sf.bullets@))
            ==> r == Some(sf.frontmatter.workspace_id.unwrap()@),
        remembered(b, sf.path@) == Some(views(sf.bullets@)),
{
    crate::app::lemma_last_index(
        a.workspaces@,
        sf.frontmatter.workspace_id.unwrap()@,
        a.workspaces@.len() as int,
    );
}

// ---------------------------------------------------------------------------
// Surfaces
// ---------------------------------------------------------------------------

/// How many of the first `n` surfaces are of a kind.
pub open spec fn of_kind(surfaces: Seq<SurfaceInfo>, kind: SurfaceKind, n: int) -> int {
    surfaces.take(n).filter(|s: SurfaceInfo| s.kind == kind).len() as int
}

proof fn lemma_of_kind(surfaces: Seq<SurfaceInfo>, kind: SurfaceKind, n: int)
    requires
        0 <= n < surfaces.len(),
    ensures
        of_kind(surfaces, kind, n + 1) == of_kind(surfaces, kind, n) + (if surfaces[n].kind
            == kind {
            1int
        } else {
            0int
        }),
        of_kind(surfaces, kind, 0) == 0,
{
    reveal(Seq::filter);
    assert(surfaces.take(n + 1).drop_last() =~= surfaces.take(n));
    assert(surfaces.take(n + 1).last() == surfaces[n]);
    assert(surfaces.take(0).len() == 0);
}

proof fn lemma_place(
    surfaces: Seq<SurfaceInfo>,
    kind: SurfaceKind,
    surface_ref: Seq<char>,
    i: int,
    k: int,
)
    requires
        0 <= i <= k < surfaces.len(),
        surfaces[k].kind == kind,
        surfaces[k].ref_id@ == surface_ref,
        forall|j: int|
            i <= j < k && (#[trigger] surfaces[j]).kind == kind ==> surfaces[j].ref_id@
                != surface_ref,
    ensures
        place_among(surfaces, kind, surface_ref, i, of_kind(surfaces, kind, i)) == of_kind(
            surfaces,
            kind,
            k,
        ),
    decreases k - i,
{
    if i < k {
        lemma_of_kind(surfaces, kind, i);
        lemma_place(surfaces, kind, surface_ref, i + 1, k);
    }
}

/// A surface's place among those of its kind is how many of them stand before it.
pub proof fn a_surface_is_counted_among_its_kind(
    surfaces: Seq<SurfaceInfo>,
    kind: SurfaceKind,
    surface_ref: Seq<char>,
    k: int,
)
    requires
        0 <= k < surfaces.len(),
        surfaces[k].kind == kind,
        surfaces[k].ref_id@ == surface_ref,
        forall|j: int|
            0 <= j < k && (#[trigger] surfaces[j]).kind == kind ==> surfaces[j].ref_id@
                != surface_ref,
    ensures
        place_among(surfaces, kind, surface_ref, 0, 0) == of_kind(surfaces, kind, k),
{
    lemma_of_kind(surfaces, kind, 0);
    lemma_place(surfaces, kind, surface_ref, 0, k);
}

proof fn lemma_reported(surfaces: Seq<SurfaceInfo>, surface_ref: Seq<char>, i: int, k: int)
    requires
        0 <= i,
    ensures
        i <= k < surfaces.len() && surfaces[k].ref_id@ == surface_ref && (forall|j: int|
            i <= j < k ==> (#[trigger] surfaces[j]).ref_id@ != surface_ref) ==> reported_kind(
            surfaces,
            surface_ref,
            i,
        ) == surfaces[k].kind,
        (forall|j: int|
            i <= j < surfaces.len() ==> (#[trigger] surfaces[j]).ref_id@ != surface_ref)
            ==> reported_kind(surfaces, surface_ref, i) == SurfaceKind::Unknown,
    decreases surfaces.len() - i,
{
    if i < surfaces.len() {
        lemma_reported(surfaces, surface_ref, i + 1, k);
    }
}

/// A surface's reported kind is that of the first surface with its reference, and unknown
/// without one.
pub proof fn the_reported_kind_is_the_surfaces(
    surfaces: Seq<SurfaceInfo>,
    surface_ref: Seq<char>,
    k: int,
)
    ensures
        0 <= k < surfaces.len() && surfaces[k].ref_id@ == surface_ref && (forall|j: int|
            0 <= j < k ==> (#[trigger] surfaces[j]).ref_id@ != surface_ref) ==> reported_kind(
            surfaces,
            surface_ref,
            0,
        ) == surfaces[k].kind,
        (forall|j: int|
            0 <= j < surfaces.len() ==> (#[trigger] surfaces[j]).ref_id@ != surface_ref)
            ==> reported_kind(surfaces, surface_ref, 0) == SurfaceKind::Unknown,
{
    lemma_reported(surfaces, surface_ref, 0, k);
}

/// Scrolling the detail pane goes three lines down or up, stays in range, and a step up
/// takes back a step down.
pub proof fn scrolling_goes_by_three_lines(offset: int)
    requires
        0 <= offset <= u16::MAX,
    ensures
        offset <= further_down(offset) <= u16::MAX,
        0 <= further_up(offset) <= offset,
        offset <= u16::MAX - 3 ==> further_down(offset) - offset == 3 && further_up(
            further_down(offset),
        ) == offset,
        offset >= 3 ==> offset - further_up(offset) == 3 && further_down(further_up(offset))
            == offset,
{
}

/// A summary is due from the threshold on, and only of a workspace with a session; more
/// calls keep it due.
pub proof fn a_summary_is_due_from_the_threshold_on(a: WorkspaceState, b: WorkspaceState, t: int)
    requires
        a.session is Some == b.session is Some,
        a.tool_call_count <= b.tool_call_count,
    ensures
        summary_is_due(a, t) ==> summary_is_due(b, t),
        a.session is None ==> !summary_is_due(a, t),
        a.session is Some ==> summary_is_due(a, a.tool_call_count as int) && !summary_is_due(
            a,
            a.tool_call_count + 1,
        ),
{
}

/// A workspace that left takes the selection along only when it was the last; the
/// selection stays among those that are left.
pub proof fn the_selection_stays_in_range(selected: int, n: int)
    requires
        0 <= selected <= n,
        0 < n,
    ensures
        0 <= kept_selection(selected, n) < n,
        selected < n ==> kept_selection(selected, n) == selected,
        kept_selection(n, n) == n - 1,
{
}

/// A peek that follows shows the last line at the bottom of the pane; one that does not
/// stays where the user put it.
pub proof fn a_following_peek_shows_the_last_line(p: PeekState, height: int)
    requires
        0 <= height,
        p.screen_buffer@.len() <= u16::MAX,
    ensures
        !p.auto_follow ==> p.shown_from(height) == p.scroll_offset,
        p.auto_follow && p.screen_buffer@.len() <= height ==> p.shown_from(height) == 0,
        p.auto_follow && p.screen_buffer@.len() > height ==> p.shown_from(height) + height
            == p.screen_buffer@.len(),
{
}

/// A workspace is remote while a session of it is not gone, and while a client shows one.
pub proof fn clients_and_sessions_make_a_workspace_remote(w: WorkspaceState, i: int)
    ensures
        0 <= i < w.remote_surfaces.entries@.len() && w.remote_surfaces.entries@[i].1.freshness
            != RemoteFreshness::Gone ==> w.remote_active(),
        (forall|j: int|
            0 <= j < w.remote_surfaces.entries@.len() ==> (
            #[trigger] w.remote_surfaces.entries@[j]).1.freshness == RemoteFreshness::Gone)
            ==> !w.remote_active(),
        0 <= i < w.surfaces@.len() && w.surfaces@[i].kind == SurfaceKind::Remote
            ==> w.has_remote_client(),
        (forall|j: int|
            0 <= j < w.surfaces@.len() ==> (#[trigger] w.surfaces@[j]).kind != SurfaceKind::Remote)
            ==> !w.has_remote_client() && !w.has_unbound_client(),
        0 <= i < w.surfaces@.len() && w.surfaces@[i].kind == SurfaceKind::Remote
            && w.remote_surfaces.lookup(w.surfaces@[i].ref_id@) is None ==> w.has_unbound_client(),
{
    if 0 <= i < w.surfaces@.len() {
        lemma_key_from(w.remote_surfaces.entries@, w.surfaces@[i].ref_id@, 0);
    }
}

/// A reference is live exactly when a surface of some workspace has it.
pub proof fn open_surfaces_are_live(s: Seq<WorkspaceState>, i: int, j: int, id: Seq<char>)
    ensures
        0 <= i < s.len() && 0 <= j < s[i].surfaces@.len() ==> is_live(
            s,
            s[i].surfaces@[j].ref_id@,
        ),
        (forall|a: int, b: int|
            0 <= a < s.len() && 0 <= b < s[a].surfaces@.len() ==> (
            #[trigger] s[a].surfaces@[b]).ref_id@ != id) ==> !is_live(s, id),
{
}

/// Enter on a blank task sends nothing: it is the editor's key, in a pane that has the
/// focus.
pub proof fn a_blank_task_is_not_dispatched(
    w: WorkspaceState,
    focused: bool,
    s: EditView,
    d: DocView,
    key: KeyEvent,
    now: Moment,
    route: PeekRoute,
)
    requires
        in_document(w, s, d),
        is_on_row(s, d, "Beads"@),
        key.code == KeyCode::Enter,
        w.linear is None,
        w.beads is None,
        trim(d.sections[s.section].items[s.item].text).len() == 0,
    ensures
        ({
            let step = pane_step(w, focused, key, now, route);
            &&& step.pane.modal is None
            &&& step.pane.peek is None
            &&& !focused ==> step.pane.doc == pane(w).doc && step.actions.len() == 0
            &&& focused ==> step.pane.doc == Some(key_outcome(s, d, key, now).doc)
                && step.pane.edit == Some(key_outcome(s, d, key, now).state) && step.actions
                == key_outcome(s, d, key, now).actions
        }),
{
    crate::trajectory::lemma_section_names_differ();
}

} // verus!
