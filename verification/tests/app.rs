//! The state of the whole screen: keys, refreshes, regeneration and dismissal.
use mission_control::agents::{known_agents, AgentTable};
use mission_control::app::{
    highlighted_surface_repo, AgentEvent, App,
};
use mission_control::app_keys::PeekRoute;
use mission_control::app_panes::{document_to_persist, Settlement};
use mission_control::assoc::Assoc;
use mission_control::beads::BeadsRefreshSnapshot;
use mission_control::clock::Moment;
use mission_control::gather::surface_report;
use mission_control::handoff::RemoteSessionLocator;
use mission_control::intent::surface_intent_summary;
use mission_control::keys::{KeyCode, KeyEvent, KeyModifiers};
use mission_control::mesh::{
    remote_surface_is_current, retain_remote_surfaces_as_stale, RemoteFreshness,
    RemoteSurfaceState,
};
use mission_control::peek_view::{PeekSource, PeekState};
use mission_control::projection::{GoalFacts, GoalsInput, RowText};
use mission_control::refresh::{seed_mission, RefreshFiles, RefreshSnapshot};
use mission_control::screen::ScreenInsights;
use mission_control::sources::{linear_query_groups, resolve_task_sources, SourceEvidence};
use mission_control::surface::{SurfaceInfo, SurfaceKind};
use mission_control::tasks::{
    beads_items_for_view, is_projected_task_row, linear_desktop_url_for_row,
    linear_items_for_view, retain_last_good_linear, strip_projected_task_rows, BeadIssue,
    BeadsSource, LinearIssue, LinearTarget, RepoBeadsView, TaskSource, WorkspaceBeadsView,
    WorkspaceLinearView,
};
use mission_control::trajectory::{
    Item, TrajectoryDoc, SECTION_CURRENT_SURFACES, SECTION_GOALS, SECTION_MISSION,
};
use mission_control::trajectory_edit::{EditAction, EditMode, InsertFocus, TrajectoryEditState};
use mission_control::workspace::{
    AgentState, DismissalState, Focus, MuxSessionState, RegenSchedulerState, Workspace,
    WorkspaceState,
};

// ---------------------------------------------------------------------------
// Helpers
// ---------------------------------------------------------------------------

fn at(secs: u64) -> Moment {
    Moment { nanos: secs as i64 * 1_000_000_000 }
}

fn key(code: KeyCode) -> KeyEvent {
    KeyEvent { code, modifiers: KeyModifiers::Plain }
}

fn shift_key(c: char) -> KeyEvent {
    KeyEvent { code: KeyCode::Char(c), modifiers: KeyModifiers::Shift }
}

fn agents() -> AgentTable {
    known_agents("agent-c", "Agent C")
}

fn bullet(text: &str) -> Item {
    Item { text: text.to_string(), is_checkbox: false, checked: None, surface_id: None }
}

fn task(text: &str, checked: bool) -> Item {
    Item { text: text.to_string(), is_checkbox: true, checked: Some(checked), surface_id: None }
}

fn surface_row(text: &str, surface: &str) -> Item {
    Item { surface_id: Some(surface.to_string()), ..bullet(text) }
}

fn doc_of(mission: Vec<Item>, surfaces: Vec<Item>, goals: Vec<Item>) -> TrajectoryDoc {
    let mut doc = TrajectoryDoc::default();
    doc.ensure_sections();
    doc.sections[0].items = mission;
    doc.sections[1].items = surfaces;
    doc.sections[2].items = goals;
    doc
}

/// A document whose surface row names a surface.
fn with_surface() -> TrajectoryDoc {
    doc_of(
        vec![task("Build investment agent", false)],
        vec![surface_row("agent-c · mbp · working", "sid-42")],
        vec![task("sprint-01", false)],
    )
}

/// A document whose surface row names no surface.
fn without_surface() -> TrajectoryDoc {
    doc_of(
        vec![task("Build investment agent", false)],
        vec![bullet("agent-c · mbp · working")],
        vec![task("sprint-01", false)],
    )
}

fn workspace_state(uuid: &str, ref_id: &str, name: &str) -> WorkspaceState {
    WorkspaceState {
        workspace: Workspace {
            window_id: Some("window-test".to_string()),
            window_ref: Some("window:1".to_string()),
            ref_id: ref_id.to_string(),
            uuid: uuid.to_string(),
            name: name.to_string(),
            description: None,
            current_directory: None,
            custom_color: None,
        },
        session: None,
        surfaces: Vec::new(),
        remote_surfaces: Assoc::new(),
        screen_preview: None,
        screen_insights: ScreenInsights::default(),
        tool_call_count: 0,
        notes: None,
        mux_status: None,
        classification: None,
        loading: false,
        summary: None,
        beads: None,
        linear: None,
        linear_open_pending: None,
        summarizing: false,
        trajectory: None,
        edit_state: None,
        missions_pending: false,
        peek_state: None,
        peek_yield_pending: false,
        regen: RegenSchedulerState {
            last_regen_at: None,
            events_since_last_regen: 0,
            regen_in_flight: false,
        },
        dismissal: DismissalState { open_surfaces: 0, grace_started_at: None, dismissing: false },
        dispatch_modal: None,
        dispatch_pending_outcome: None,
        dispatch_error: None,
    }
}

fn make_ws(doc: TrajectoryDoc) -> WorkspaceState {
    let mut ws = workspace_state("test-uuid-1", "workspace:3", "test-ws");
    ws.trajectory = Some(doc);
    ws
}

fn make_app(doc: TrajectoryDoc) -> App {
    let mut app = App::new();
    app.workspaces.push(make_ws(doc));
    app.selected = 0;
    app
}

/// A key in the detail pane, with nothing known of the surface under the cursor.
fn press(app: &mut App, k: KeyEvent) -> Vec<EditAction> {
    let route = PeekRoute { effective: SurfaceKind::Unknown, session_path: None };
    app.handle_trajectory_key(k, at(0), &route)
}

fn edit_of(app: &mut App) -> &mut TrajectoryEditState {
    app.workspaces[0].edit_state.get_or_insert_with(Default::default)
}

fn doc_in(app: &App) -> &TrajectoryDoc {
    app.workspaces[0].trajectory.as_ref().unwrap()
}

fn surface(title: &str, ref_id: &str, kind: SurfaceKind, focused: bool) -> SurfaceInfo {
    SurfaceInfo {
        title: title.to_string(),
        ref_id: ref_id.to_string(),
        uuid: None,
        tty: None,
        kind,
        focused,
    }
}

fn remote_state(surface_ref: &str, state: &str, freshness: RemoteFreshness) -> RemoteSurfaceState {
    RemoteSurfaceState {
        surface_uuid: "11111111-1111-4111-8111-111111111111".to_string(),
        workspace_uuid: "test-uuid-1".to_string(),
        locator: RemoteSessionLocator {
            schema_version: 1,
            device_id: "devbox".to_string(),
            profile_scope: "root".to_string(),
            session_id: format!("s-{surface_ref}"),
            transport_binding_id: None,
        },
        name: Some(format!("remote-{surface_ref}")),
        agent: Some("codex".to_string()),
        state: Some(state.to_string()),
        health: Some("healthy".to_string()),
        launch_cwd: Some("~/Tools/mission-control".to_string()),
        current_work: Some("Implement exact remote surfaces".to_string()),
        freshness,
    }
}

fn test_linear_issue(identifier: &str) -> LinearIssue {
    LinearIssue {
        identifier: identifier.to_string(),
        title: "Open the exact Linear issue".to_string(),
        priority: 2,
        state_name: "In Progress".to_string(),
        desktop_url: Some(format!(
            "linear://linear.app/reflection-ai/issue/{identifier}/open-the-exact-issue"
        )),
    }
}

fn test_linear_view(identifier: &str) -> WorkspaceLinearView {
    WorkspaceLinearView {
        project_id: "project-1".to_string(),
        required_labels: vec!["group-grader".to_string()],
        feature_name: Some("group-grader".to_string()),
        issues: vec![test_linear_issue(identifier)],
        warning: None,
    }
}

fn install_linear_view(app: &mut App, view: WorkspaceLinearView) {
    let cursor_item = usize::from(view.feature_name.is_some() && !view.issues.is_empty());
    let items = linear_items_for_view(&view);
    let ws = &mut app.workspaces[0];
    ws.linear = Some(view);
    ws.beads = None;
    ws.trajectory.as_mut().unwrap().replace_section_items(SECTION_GOALS, items);
    ws.edit_state =
        Some(TrajectoryEditState { cursor_section: 2, cursor_item, ..Default::default() });
}

fn mux_state(
    session_id: &str,
    agent: &str,
    working: bool,
    last_event: &str,
    updated_at: i64,
    ended_turn: bool,
) -> MuxSessionState {
    MuxSessionState {
        session_id: session_id.to_string(),
        agent: agent.to_string(),
        updated_at,
        last_event: last_event.to_string(),
        working,
        ended_turn,
        contract: None,
    }
}

fn test_bead_issue(id: &str, title: &str) -> BeadIssue {
    bead(id, title, "open", 2)
}

fn bead(id: &str, title: &str, status: &str, priority: usize) -> BeadIssue {
    BeadIssue {
        id: id.to_string(),
        title: title.to_string(),
        status: status.to_string(),
        priority: Some(priority),
        closed: false,
    }
}

fn repo(path: &str, issues: Vec<BeadIssue>) -> RepoBeadsView {
    RepoBeadsView { repo_path: path.to_string(), source: BeadsSource::Available, issues }
}

fn beads_view(repos: Vec<RepoBeadsView>) -> WorkspaceBeadsView {
    WorkspaceBeadsView { repos, repo_by_surface_ref: Assoc::new() }
}

fn table<V>(entries: Vec<(&str, V)>) -> Assoc<V> {
    let mut t = Assoc::new();
    for (k, v) in entries {
        t.insert(k.to_string(), v);
    }
    t
}

fn snapshot_of(workspaces: Vec<Workspace>) -> RefreshSnapshot {
    RefreshSnapshot {
        workspaces,
        surfaces_map: Assoc::new(),
        sessions_by_ws_id: Assoc::new(),
        beads_by_ws_id: Assoc::new(),
        linear_by_ws_id: Assoc::new(),
        surface_intents_by_ws_id: Assoc::new(),
        remote_mesh: None,
        mesh_warning: None,
    }
}

fn files_of(trajectories: Assoc<TrajectoryDoc>) -> RefreshFiles {
    RefreshFiles { trajectories, notes: Assoc::new() }
}

fn no_goals() -> GoalsInput {
    GoalsInput {
        has_goals: false,
        has_prefix: false,
        prefix_picked: false,
        rows: Vec::new(),
        fresh_ids: Vec::new(),
    }
}

fn shell_peek() -> PeekState {
    PeekState::new(
        "workspace:1".to_string(),
        "workspace:3".to_string(),
        "test".to_string(),
        PeekSource::Shell,
    )
}

fn long_peek(lines: usize, offset: u16) -> PeekState {
    let mut ps = shell_peek();
    for i in 0..lines {
        ps.screen_buffer.push(format!("line {i}"));
    }
    ps.scroll_offset = offset;
    ps
}

fn peek_in(app: &App) -> &PeekState {
    app.workspaces[0].peek_state.as_ref().unwrap()
}

// ---------------------------------------------------------------------------
// Task sources and their rows
// ---------------------------------------------------------------------------

fn feature_target(labels: &[&str]) -> TaskSource {
    TaskSource::Linear(LinearTarget {
        team_id: None,
        project_id: "project-1".to_string(),
        labels: labels.iter().map(|l| l.to_string()).collect(),
        feature_name: None,
    })
}

fn labels_of<'a>(sources: &'a Assoc<TaskSource>, workspace: &str) -> &'a Vec<String> {
    match sources.get(workspace) {
        Some(TaskSource::Linear(target)) => &target.labels,
        _ => panic!("no Linear target"),
    }
}

#[test]
fn task_source_resolution_uses_workspace_then_surface_fallback() {
    let evidence = vec![
        SourceEvidence {
            workspace_id: "root".to_string(),
            identity: TaskSource::Unregistered,
            directory: Some(feature_target(&[])),
            repos: Vec::new(),
        },
        SourceEvidence {
            workspace_id: "fallback".to_string(),
            identity: TaskSource::Unregistered,
            directory: Some(TaskSource::Unregistered),
            repos: vec![feature_target(&["group-grader"])],
        },
        SourceEvidence {
            workspace_id: "mixed".to_string(),
            identity: feature_target(&["group-grader"]),
            directory: Some(TaskSource::Beads),
            repos: Vec::new(),
        },
    ];
    let sources = resolve_task_sources(evidence, true);
    assert!(labels_of(&sources, "root").is_empty());
    assert_eq!(labels_of(&sources, "fallback"), &vec!["group-grader".to_string()]);
    assert_eq!(labels_of(&sources, "mixed"), &vec!["group-grader".to_string()]);
}

#[test]
fn identical_project_and_label_targets_share_one_linear_query_group() {
    let mut sources = Assoc::new();
    for (workspace_id, team_id) in [("one", "team-a"), ("two", "team-b")] {
        sources.insert(
            workspace_id.to_string(),
            TaskSource::Linear(LinearTarget {
                team_id: Some(team_id.to_string()),
                project_id: "project-1".to_string(),
                labels: vec!["group-grader".to_string()],
                feature_name: Some("group-grader".to_string()),
            }),
        );
    }
    let groups = linear_query_groups(&sources);
    assert_eq!(groups.len(), 1);
    assert_eq!(groups[0].targets.len(), 2);
}

#[test]
fn enter_on_linear_issue_requests_its_exact_desktop_url() {
    let mut app = make_app(with_surface());
    install_linear_view(&mut app, test_linear_view("MID-508"));
    let actions = press(&mut app, key(KeyCode::Enter));
    assert!(actions.is_empty());
    assert_eq!(
        app.take_linear_open_request().as_deref(),
        Some("linear://linear.app/reflection-ai/issue/MID-508/open-the-exact-issue")
    );
    assert!(app.workspaces[0].dispatch_modal.is_none());
}

#[test]
fn linear_non_issue_rows_and_mutation_keys_are_noops() {
    let mut app = make_app(with_surface());
    let unavailable = WorkspaceLinearView {
        project_id: "project-1".to_string(),
        required_labels: vec![],
        feature_name: None,
        issues: vec![],
        warning: Some("Linear unavailable: API request failed".to_string()),
    };
    install_linear_view(&mut app, unavailable);
    let before = doc_in(&app).clone();
    press(&mut app, key(KeyCode::Enter));
    assert_eq!(app.take_linear_open_request(), None);
    for code in [
        KeyCode::Char(' '),
        KeyCode::Char('x'),
        KeyCode::Char('X'),
        KeyCode::Char('d'),
        KeyCode::Char('o'),
        KeyCode::Char('O'),
        KeyCode::Char('i'),
        KeyCode::Char('J'),
        KeyCode::Char('K'),
    ] {
        assert!(press(&mut app, key(code)).is_empty());
    }
    assert_eq!(doc_in(&app), &before);
    assert!(matches!(edit_of(&mut app).mode, EditMode::Nav));
}

#[test]
fn transient_linear_failure_retains_only_matching_last_good_target() {
    let previous = test_linear_view("MID-508");
    let failed = |project: &str| WorkspaceLinearView {
        project_id: project.to_string(),
        required_labels: previous.required_labels.clone(),
        feature_name: previous.feature_name.clone(),
        issues: vec![],
        warning: Some("Linear unavailable: API request failed".to_string()),
    };
    let mut same_target_failure = failed("project-1");
    retain_last_good_linear(&mut same_target_failure, Some(&previous));
    assert_eq!(same_target_failure.issues[0].identifier, "MID-508");

    let mut other_target_failure = failed("project-2");
    retain_last_good_linear(&mut other_target_failure, Some(&previous));
    assert!(other_target_failure.issues.is_empty());
}

#[test]
fn stale_linear_rows_are_removed_without_deleting_local_goals() {
    let mut items = linear_items_for_view(&test_linear_view("MID-508"));
    items.push(bullet("Keep this local goal"));
    let (cleaned, dropped) = strip_projected_task_rows(&items);
    assert!(dropped);
    assert_eq!(cleaned.len(), 1);
    assert_eq!(cleaned[0].text, "Keep this local goal");
}

#[test]
fn linear_rows_are_segmented_by_registered_feature_name() {
    let items = linear_items_for_view(&test_linear_view("MID-508"));
    assert_eq!(items[0].text, "feature: group-grader");
    assert!(items[1].text.contains("MID-508"));
    assert!(linear_desktop_url_for_row(&test_linear_view("MID-508"), &items[0].text).is_none());
}

// ---------------------------------------------------------------------------
// Workspaces
// ---------------------------------------------------------------------------

#[test]
fn bottom_info_shows_workspace_and_window_in_sidebar_focus() {
    let app = make_app(with_surface());
    assert_eq!(
        app.bottom_info().as_deref(),
        Some("workspace test-uuid-1 · window window-test")
    );
}

#[test]
fn bottom_info_keeps_global_warning_visible() {
    let mut app = make_app(with_surface());
    app.global_warning = Some("OpenAI key unavailable".to_string());
    assert_eq!(
        app.bottom_info().as_deref(),
        Some("workspace test-uuid-1 · window window-test · ⚠ OpenAI key unavailable")
    );
}

#[test]
fn remote_status_aggregates_actionable_before_working_before_stale() {
    let mut app = make_app(with_surface());
    let ws = &mut app.workspaces[0];
    ws.remote_surfaces.insert(
        "surface:working".to_string(),
        remote_state("working", "working", RemoteFreshness::Fresh),
    );
    assert_eq!(ws.agent_state(&agents()), AgentState::Working);

    ws.remote_surfaces.insert(
        "surface:waiting".to_string(),
        remote_state("waiting", "waiting", RemoteFreshness::Fresh),
    );
    assert_eq!(ws.agent_state(&agents()), AgentState::NeedsMe);

    ws.remote_surfaces = Assoc::new();
    ws.remote_surfaces.insert(
        "surface:idle".to_string(),
        remote_state("idle", "idle", RemoteFreshness::Fresh),
    );
    assert_eq!(ws.agent_state(&agents()), AgentState::Idle);

    ws.remote_surfaces = Assoc::new();
    ws.remote_surfaces.insert(
        "surface:stale".to_string(),
        remote_state("stale", "working", RemoteFreshness::Stale),
    );
    assert_eq!(ws.agent_state(&agents()), AgentState::Stale);
}

#[test]
fn mixed_workspace_keeps_local_compact_header_identity() {
    let mut app = make_app(with_surface());
    let ws = &mut app.workspaces[0];
    ws.surfaces.push(surface("agent-c local", "surface:local", SurfaceKind::Claude, false));
    ws.screen_insights.agent = Some("agent-c".to_string());
    ws.screen_insights.working_dir = Some("~/Projects/local".to_string());
    ws.remote_surfaces.insert(
        "surface:remote".to_string(),
        remote_state("remote", "idle", RemoteFreshness::Fresh),
    );
    assert_eq!(ws.agent_name(&agents()), "agent-c");
    assert_eq!(ws.working_dir(&agents()), "~/Projects/local");
    assert_eq!(ws.host_name(), "devbox");
}

#[test]
fn remote_header_selection_is_stable_and_excludes_gone_history() {
    let mut app = make_app(with_surface());
    let ws = &mut app.workspaces[0];

    let mut first = remote_state("first", "working", RemoteFreshness::Fresh);
    first.agent = Some("agent-c".to_string());
    first.launch_cwd = Some("~/Projects/first".to_string());
    ws.remote_surfaces.insert("surface:a".to_string(), first);

    let mut second = remote_state("second", "working", RemoteFreshness::Fresh);
    second.agent = Some("codex".to_string());
    second.launch_cwd = Some("~/Projects/second".to_string());
    ws.remote_surfaces.insert("surface:z".to_string(), second);

    let mut gone = remote_state("gone", "waiting", RemoteFreshness::Gone);
    gone.agent = Some("opencode".to_string());
    gone.locator.device_id = "labs".to_string();
    ws.remote_surfaces.insert("surface:0".to_string(), gone);

    assert_eq!(ws.agent_name(&agents()), "agent-c");
    assert_eq!(ws.working_dir(&agents()), "~/Projects/first");
    assert_eq!(ws.host_name(), "devbox");
    assert_eq!(ws.agent_state(&agents()), AgentState::Working);

    let mut waiting = ws.remote_surfaces.remove("surface:z").unwrap();
    waiting.state = Some("waiting".to_string());
    ws.remote_surfaces.insert("surface:z".to_string(), waiting);
    assert_eq!(ws.agent_name(&agents()), "codex");
    assert_eq!(ws.working_dir(&agents()), "~/Projects/second");
    assert_eq!(ws.agent_state(&agents()), AgentState::NeedsMe);
}

#[test]
fn gone_remote_is_folded_out_of_current_surfaces() {
    let gone = remote_state("gone", "exited", RemoteFreshness::Gone);
    assert!(!remote_surface_is_current(Some(&gone)));
    assert!(remote_surface_is_current(None));
}

#[test]
fn mesh_fetch_failure_retains_exact_surface_as_stale() {
    let old = table(vec![(
        "surface:14",
        remote_state("surface:14", "working", RemoteFreshness::Fresh),
    )]);
    let surfaces = vec![surface("anything", "surface:14", SurfaceKind::Remote, false)];
    let retained = retain_remote_surfaces_as_stale(&old, &surfaces);
    let state = retained.get("surface:14").expect("retained binding");
    assert_eq!(state.freshness, RemoteFreshness::Stale);
    assert_eq!(state.locator.device_id, "devbox");
}

#[test]
fn bound_remote_peek_uses_exact_cmux_surface_not_local_transcript() {
    let mut app = make_app(with_surface());
    let ws = &mut app.workspaces[0];
    ws.surfaces.push(surface("codex-looking remote", "sid-42", SurfaceKind::Codex, true));
    ws.remote_surfaces.insert(
        "sid-42".to_string(),
        remote_state("sid-42", "working", RemoteFreshness::Fresh),
    );
    edit_of(&mut app).cursor_section = 1;
    assert_eq!(app.peek_target(), Some(("sid-42".to_string(), SurfaceKind::Codex)));
    let route = PeekRoute {
        effective: SurfaceKind::Codex,
        session_path: Some("/sessions/local.md".to_string()),
    };
    app.handle_trajectory_key(key(KeyCode::Enter), at(0), &route);
    let peek = peek_in(&app);
    assert_eq!(peek.surface_ref, "sid-42");
    assert!(matches!(peek.source, PeekSource::Shell));
}

#[test]
fn mux_state_drives_agent_state_instead_of_event_name() {
    let mut app = make_app(with_surface());
    app.handle_agent_event(&AgentEvent {
        session_id: "s-1".to_string(),
        workspace_id: "test-uuid-1".to_string(),
        event_name: "agent.hook.Stop".to_string(),
    });
    assert_eq!(app.workspaces[0].agent_state(&agents()), AgentState::Idle);

    app.apply_mux_session_states(vec![mux_state("s-1", "grok", true, "tool_start", 5, false)]);
    assert_eq!(app.workspaces[0].agent_name(&agents()), "grok");
    assert_eq!(app.workspaces[0].agent_state(&agents()), AgentState::Working);

    app.apply_mux_session_states(vec![mux_state("s-1", "grok", false, "turn_end", 8, true)]);
    assert_eq!(app.workspaces[0].agent_state(&agents()), AgentState::NeedsMe);
}

#[test]
fn newest_mux_state_wins_when_workspace_has_multiple_sessions() {
    let mut app = make_app(with_surface());
    for session_id in ["s-old", "s-new"] {
        app.handle_agent_event(&AgentEvent {
            session_id: session_id.to_string(),
            workspace_id: "test-uuid-1".to_string(),
            event_name: "agent.hook.UserPromptSubmit".to_string(),
        });
    }
    app.apply_mux_session_states(vec![
        mux_state("s-new", "agent-c", true, "tool_start", 10, false),
        mux_state("s-old", "grok", false, "turn_end", 8, true),
    ]);
    assert_eq!(app.workspaces[0].agent_name(&agents()), "agent-c");
    assert_eq!(app.workspaces[0].agent_state(&agents()), AgentState::Working);
}

#[test]
fn bottom_info_adds_surface_when_detail_cursor_is_on_surface_row() {
    let mut app = make_app(with_surface());
    app.focus = Focus::Detail;
    edit_of(&mut app).cursor_section = 1;
    assert_eq!(
        app.bottom_info().as_deref(),
        Some("surface sid-42 · workspace test-uuid-1 · window window-test")
    );
}

// ---------------------------------------------------------------------------
// Refreshes
// ---------------------------------------------------------------------------

#[test]
fn refresh_projection_replaces_third_section_with_beads() {
    let mut ws = workspace_state("uuid-beads", "workspace:9", "repo").workspace;
    ws.current_directory = Some("/tmp/repo".to_string());
    let mut snap = snapshot_of(vec![ws]);
    let issue = bead("repo-7", "Show Beads in mission control", "in_progress", 1);
    snap.beads_by_ws_id = table(vec![("uuid-beads", beads_view(vec![repo("/tmp/repo", vec![issue])]))]);
    let files = files_of(table(vec![(
        "uuid-beads",
        doc_of(Vec::new(), Vec::new(), Vec::new()),
    )]));
    let mut app = App::new();
    app.apply_refresh_snapshot(snap, &files);
    let outcome = app.project_workspace(0, &Vec::new(), &no_goals());
    assert!(outcome.save_document);
    let beads = doc_in(&app).section(SECTION_GOALS).expect("Beads section");
    assert_eq!(beads.name, "Beads");
    assert_eq!(beads.items.len(), 2);
    assert!(beads.items[0].text.starts_with("repo: "));
    assert!(beads.items[1].text.contains("repo-7 in-progress"));
    assert!(beads.items[1].text.contains("Show Beads in mission control"));
    assert_eq!(beads.items[1].checked, Some(false));
}

/// The first mission is checked, and its move to the history is pending.
fn preview_completion(app: &mut App) {
    app.workspaces[0].trajectory.as_mut().unwrap().sections[0].items[0].checked = Some(true);
    app.workspaces[0].missions_pending = true;
}

/// The first mission is open again, and no move is pending.
fn cancel_completion(app: &mut App) {
    app.workspaces[0].trajectory.as_mut().unwrap().sections[0].items[0].checked = Some(false);
    app.workspaces[0].missions_pending = false;
}

/// What is written of the first workspace, given the document before the preview.
fn persisted(app: &App, stable: &TrajectoryDoc) -> TrajectoryDoc {
    document_to_persist(&app.workspaces[0], Some(stable)).unwrap()
}

#[test]
fn refresh_projection_persists_stable_mission_preview_and_cancel() {
    let mut app = make_app(with_surface());
    let stable = doc_in(&app).clone();
    let mut on_disk = stable.clone();
    preview_completion(&mut app);
    for (title, pending) in [("first projected surface", true), ("second projected surface", false)] {
        if !pending {
            cancel_completion(&mut app);
        }
        let snap = snapshot_of(vec![app.workspaces[0].workspace.clone()]);
        app.apply_refresh_snapshot(snap, &files_of(table(vec![("test-uuid-1", on_disk)])));
        assert_eq!(app.workspaces[0].missions_pending, pending);
        let rows = vec![RowText {
            text: title.to_string(),
            surface_ref: "surface:stable-preview".to_string(),
        }];
        let goals = GoalsInput {
            rows: vec![GoalFacts {
                raw: "sprint-01".to_string(),
                id: None,
                badge: None,
                identified: false,
            }],
            ..no_goals()
        };
        assert!(app.project_workspace(0, &rows, &goals).save_document);
        assert_eq!(doc_in(&app).rows(SECTION_MISSION)[0].checked, Some(pending));
        let saved = persisted(&app, &stable);
        assert_eq!(saved.rows(SECTION_MISSION)[0].checked, Some(false));
        assert!(saved.mission_history.is_empty());
        assert!(saved.rows(SECTION_CURRENT_SURFACES)[0].text.contains(title));
        on_disk = saved;
    }
}

#[test]
fn beads_refresh_targets_collect_visible_beads_repos() {
    let mut app = make_app(with_surface());
    app.workspaces[0].beads = Some(WorkspaceBeadsView {
        repos: vec![repo("/tmp/repo-a", vec![]), repo("/tmp/repo-b", vec![])],
        repo_by_surface_ref: table(vec![("sid-42", "/tmp/repo-b".to_string())]),
    });
    let targets = app.beads_refresh_targets();
    assert_eq!(targets.len(), 1);
    assert_eq!(targets[0].generation, app.beads_generation);
    assert_eq!(targets[0].workspace_id, "test-uuid-1");
    assert_eq!(targets[0].repo_roots, vec!["/tmp/repo-a", "/tmp/repo-b"]);
    assert_eq!(
        targets[0].repo_by_surface_ref.entries,
        vec![("sid-42".to_string(), "/tmp/repo-b".to_string())]
    );
}

#[test]
fn beads_refresh_snapshot_updates_beads_section_without_full_refresh() {
    let mut app = make_app(with_surface());
    app.workspaces[0].beads =
        Some(beads_view(vec![repo("/tmp/repo-live", vec![test_bead_issue("old-1", "Old issue")])]));
    let fresh =
        beads_view(vec![repo("/tmp/repo-live", vec![test_bead_issue("new-1", "Newly created issue")])]);
    let saved = app.apply_beads_refresh_snapshot(&BeadsRefreshSnapshot {
        generation: app.beads_generation,
        beads_by_ws_id: table(vec![("test-uuid-1", fresh)]),
    });
    assert_eq!(saved, vec!["test-uuid-1"]);
    let beads = doc_in(&app).section(SECTION_GOALS).unwrap();
    assert_eq!(beads.items.len(), 2);
    assert!(beads.items[0].text.starts_with("repo: "));
    assert!(beads.items[1].text.contains("new-1"));
    assert!(beads.items[1].text.contains("Newly created issue"));
    assert!(beads.items.iter().all(|i| !i.text.contains("old-1")));
}

#[test]
fn beads_refresh_persists_stable_mission_during_preview_and_after_cancel() {
    let mut app = make_app(with_surface());
    let stable = doc_in(&app).clone();
    for (pending, id) in [(true, "new-1"), (false, "new-2")] {
        if pending {
            preview_completion(&mut app);
        } else {
            cancel_completion(&mut app);
        }
        let fresh = beads_view(vec![repo("/tmp/repo-live", vec![test_bead_issue(id, "Fresh issue")])]);
        let to_save = app.apply_beads_refresh_snapshot(&BeadsRefreshSnapshot {
            generation: app.beads_generation,
            beads_by_ws_id: table(vec![("test-uuid-1", fresh)]),
        });
        assert_eq!(to_save, vec!["test-uuid-1"]);
        assert_eq!(doc_in(&app).rows(SECTION_MISSION)[0].checked, Some(pending));
        let saved = persisted(&app, &stable);
        assert_eq!(saved.rows(SECTION_MISSION)[0].checked, Some(false));
        assert!(saved.mission_history.is_empty());
        assert!(saved.rows(SECTION_GOALS)[1].text.contains(id));
        assert_eq!(document_to_persist(&app.workspaces[0], None).is_some(), !pending);
    }
}

#[test]
fn beads_refresh_snapshot_ignores_stale_generation() {
    let mut app = make_app(with_surface());
    app.workspaces[0].beads =
        Some(beads_view(vec![repo("/tmp/repo-live", vec![test_bead_issue("old-1", "Old issue")])]));
    let stale_generation = app.beads_generation;
    app.beads_generation = app.beads_generation.wrapping_add(1);
    let fresh = beads_view(vec![repo(
        "/tmp/repo-live",
        vec![test_bead_issue("new-1", "Stale issue should not apply")],
    )]);
    let saved = app.apply_beads_refresh_snapshot(&BeadsRefreshSnapshot {
        generation: stale_generation,
        beads_by_ws_id: table(vec![("test-uuid-1", fresh)]),
    });
    assert!(saved.is_empty());
    let beads = doc_in(&app).section(SECTION_GOALS).unwrap();
    assert_eq!(beads.items[0].text, "sprint-01");
    let active_beads = app.workspaces[0].beads.as_ref().unwrap();
    assert_eq!(active_beads.repos[0].issues[0].id, "old-1");
}

#[test]
fn an_incomplete_surface_report_is_not_recorded() {
    let workspaces = vec![workspace_state("WS-1", "workspace:1", "repo").workspace];
    let failed = surface_report(&workspaces, None);
    assert!(!failed.reliable());
    let empty = surface_report(&workspaces, Some(&table(vec![("workspace:1", Vec::new())])));
    assert!(!empty.reliable());
    let shell = surface("shell", "surface:1", SurfaceKind::Shell, true);
    let complete = surface_report(&workspaces, Some(&table(vec![("workspace:1", vec![shell])])));
    assert!(complete.reliable());
}

#[test]
fn beads_empty_state_reports_unavailable_source() {
    let view = beads_view(vec![RepoBeadsView {
        repo_path: "/tmp/repo".to_string(),
        source: BeadsSource::Unavailable,
        issues: vec![],
    }]);
    let items = beads_items_for_view(&view, None);
    assert_eq!(items.len(), 2);
    assert!(items[0].text.starts_with("repo: "));
    assert!(items[1].text.contains("beads unavailable"));
}

#[test]
fn beads_projection_prioritizes_highlighted_surface_repo() {
    let mut app = make_app(doc_of(
        vec![task("Build investment agent", false)],
        vec![surface_row("agent-c · repo-a", "sid-a"), surface_row("codex · repo-b", "sid-b")],
        vec![task("old", false)],
    ));
    app.workspaces[0].beads = Some(WorkspaceBeadsView {
        repos: vec![
            repo("/tmp/repo-a", vec![bead("A-1", "Repo A task", "open", 2)]),
            repo("/tmp/repo-b", vec![bead("B-1", "Repo B task", "in_progress", 1)]),
        ],
        repo_by_surface_ref: table(vec![
            ("sid-a", "/tmp/repo-a".to_string()),
            ("sid-b", "/tmp/repo-b".to_string()),
        ]),
    });
    let state = edit_of(&mut app);
    state.cursor_section = 1;
    state.cursor_item = 1;
    let highlighted = highlighted_surface_repo(&app.workspaces[0]);
    let items =
        beads_items_for_view(app.workspaces[0].beads.as_ref().unwrap(), highlighted.as_deref());
    assert_eq!(items[0].text, "repo: repo-b");
    assert!(items[1].text.contains("B-1 in-progress"));
    assert_eq!(items[2].text, "repo: repo-a");
    assert!(items[3].text.contains("A-1 open"));
}

#[test]
fn live_beads_rows_are_read_only_in_detail_editor() {
    let mut app = make_app(with_surface());
    app.workspaces[0].beads = Some(beads_view(vec![repo("/tmp/repo", vec![])]));
    edit_of(&mut app).cursor_section = 2;
    let before = doc_in(&app).clone();
    press(&mut app, key(KeyCode::Enter));
    press(&mut app, key(KeyCode::Char(' ')));
    press(&mut app, key(KeyCode::Char('x')));
    press(&mut app, key(KeyCode::Char('i')));
    assert_eq!(doc_in(&app), &before);
    assert!(app.workspaces[0].dispatch_modal.is_none());
    assert!(matches!(edit_of(&mut app).mode, EditMode::Nav));
}

// ---------------------------------------------------------------------------
// Peek mode
// ---------------------------------------------------------------------------

#[test]
fn enter_on_current_surfaces_row_enters_peek_mode() {
    let mut app = make_app(with_surface());
    edit_of(&mut app).cursor_section = 1;
    press(&mut app, key(KeyCode::Enter));
    assert!(app.workspaces[0].peek_state.is_some());
}

#[test]
fn enter_on_current_surfaces_row_uses_surface_id() {
    let mut app = make_app(with_surface());
    edit_of(&mut app).cursor_section = 1;
    press(&mut app, key(KeyCode::Enter));
    assert_eq!(peek_in(&app).surface_ref, "sid-42");
}

#[test]
fn enter_on_current_surfaces_row_falls_back_to_workspace_ref() {
    let mut app = make_app(without_surface());
    edit_of(&mut app).cursor_section = 1;
    press(&mut app, key(KeyCode::Enter));
    assert_eq!(peek_in(&app).surface_ref, "workspace:3");
}

#[test]
fn esc_in_peek_mode_clears_peek_state() {
    let mut app = make_app(with_surface());
    app.workspaces[0].peek_state = Some(shell_peek());
    press(&mut app, key(KeyCode::Esc));
    assert!(app.workspaces[0].peek_state.is_none());
}

#[test]
fn j_in_peek_mode_scrolls_down() {
    let mut app = make_app(with_surface());
    app.workspaces[0].peek_state = Some(long_peek(50, 0));
    press(&mut app, key(KeyCode::Char('j')));
    assert_eq!(peek_in(&app).scroll_offset, 3);
}

#[test]
fn k_in_peek_mode_scrolls_up() {
    let mut app = make_app(with_surface());
    app.workspaces[0].peek_state = Some(long_peek(50, 10));
    press(&mut app, key(KeyCode::Char('k')));
    assert_eq!(peek_in(&app).scroll_offset, 7);
}

#[test]
fn g_in_peek_mode_goes_to_top() {
    let mut app = make_app(with_surface());
    app.workspaces[0].peek_state = Some(long_peek(50, 20));
    press(&mut app, key(KeyCode::Char('g')));
    assert_eq!(peek_in(&app).scroll_offset, 0);
}

#[test]
fn big_g_in_peek_mode_goes_to_bottom() {
    let mut app = make_app(with_surface());
    app.workspaces[0].peek_state = Some(long_peek(30, 0));
    press(&mut app, shift_key('G'));
    assert_eq!(peek_in(&app).scroll_offset, peek_in(&app).max_scroll());
}

#[test]
fn enter_in_peek_mode_sets_yield_pending() {
    let mut app = make_app(with_surface());
    app.workspaces[0].peek_state = Some(shell_peek());
    press(&mut app, key(KeyCode::Enter));
    assert!(app.workspaces[0].peek_yield_pending);
}

#[test]
fn peek_mode_takes_keys_before_the_dispatch_modal() {
    let mut app = make_app(with_surface());
    edit_of(&mut app).cursor_section = 2;
    press(&mut app, key(KeyCode::Enter));
    assert!(app.workspaces[0].dispatch_modal.is_some());
    assert!(app.workspaces[0].peek_state.is_none());
    app.workspaces[0].peek_state = Some(shell_peek());
    press(&mut app, key(KeyCode::Esc));
    assert!(app.workspaces[0].peek_state.is_none());
    assert!(app.take_dispatch_outcome().is_none());
    press(&mut app, key(KeyCode::Esc));
    assert!(app.take_dispatch_outcome().is_some());
}

#[test]
fn take_peek_yield_returns_ref_id_and_clears_peek() {
    let mut app = make_app(with_surface());
    app.workspaces[0].peek_state = Some(PeekState::new(
        "workspace:7".to_string(),
        "surface:42".to_string(),
        "test".to_string(),
        PeekSource::Shell,
    ));
    app.workspaces[0].peek_yield_pending = true;
    let yielded = app.take_peek_yield();
    assert_eq!(yielded, Some(("workspace:7".to_string(), "surface:42".to_string())));
    assert!(app.workspaces[0].peek_state.is_none());
    assert!(!app.workspaces[0].peek_yield_pending);
}

#[test]
fn take_peek_yield_returns_none_when_not_pending() {
    let mut app = make_app(with_surface());
    app.workspaces[0].peek_state = Some(shell_peek());
    let ref_id = app.take_peek_yield();
    assert!(ref_id.is_none());
    assert!(app.workspaces[0].peek_state.is_some());
}

// ---------------------------------------------------------------------------
// Regeneration
// ---------------------------------------------------------------------------

fn insert_mode() -> EditMode {
    EditMode::Insert { focus: InsertFocus::Item }
}

#[test]
fn workspaces_due_for_regen_excludes_insert_mode() {
    let mut app = make_app(with_surface());
    app.workspaces[0].regen.events_since_last_regen = 15;
    edit_of(&mut app).mode = insert_mode();
    assert!(app.workspaces_due_for_regen(at(0)).is_empty());
}

#[test]
fn workspaces_due_for_regen_excludes_pending_mission_relocation() {
    let mut app = make_app(with_surface());
    app.workspaces[0].regen.events_since_last_regen = 15;
    preview_completion(&mut app);
    assert!(app.workspaces_due_for_regen(at(0)).is_empty());
}

#[test]
fn failed_settle_save_keeps_preview_and_retries_the_due_move() {
    let mut app = make_app(with_surface());
    preview_completion(&mut app);
    edit_of(&mut app);
    let step = |saved: bool| {
        let mut doc = doc_of(Vec::new(), Vec::new(), vec![task("sprint-01", false)]);
        doc.mission_history.push(task("Build investment agent", true));
        vec![Some(Settlement {
            doc,
            state: TrajectoryEditState::default(),
            actions: vec![EditAction::Check {
                section: SECTION_MISSION.to_string(),
                before: "Build investment agent".to_string(),
                after: "Build investment agent".to_string(),
            }],
            saved,
            pending: false,
        })]
    };
    let settled = app.settle_pending_mission_moves(step(false));
    assert!(settled.is_empty());
    assert_eq!(doc_in(&app).rows(SECTION_MISSION)[0].checked, Some(true));
    assert!(doc_in(&app).mission_history.is_empty());
    assert!(app.workspaces[0].missions_pending);

    let due = step(true);
    let to_save = app.moves_to_save(&due);
    assert_eq!(to_save, vec![0]);
    assert_eq!(due[to_save[0]].as_ref().unwrap().actions.len(), 1);
    let settled = app.settle_pending_mission_moves(due);
    assert_eq!(settled.len(), 1);
    assert!(doc_in(&app).rows(SECTION_MISSION).is_empty());
    assert_eq!(doc_in(&app).mission_history.len(), 1);
    assert!(!app.workspaces[0].missions_pending);
}

#[test]
fn a_later_move_keeps_the_workspace_waiting() {
    let mut app = make_app(with_surface());
    preview_completion(&mut app);
    app.workspaces[0].regen.events_since_last_regen = 15;
    edit_of(&mut app);
    let step = |pending: bool| {
        let mut doc = doc_of(vec![task("second", pending)], Vec::new(), Vec::new());
        doc.mission_history.push(task("Build investment agent", true));
        vec![Some(Settlement {
            doc,
            state: TrajectoryEditState::default(),
            actions: vec![EditAction::Check {
                section: SECTION_MISSION.to_string(),
                before: "Build investment agent".to_string(),
                after: "Build investment agent".to_string(),
            }],
            saved: true,
            pending,
        })]
    };
    let settled = app.settle_pending_mission_moves(step(true));
    assert_eq!(settled, vec![("workspace:3".to_string(), "second".to_string())]);
    assert!(app.workspaces[0].missions_pending);
    assert!(app.workspaces_due_for_regen(at(0)).is_empty());
    app.settle_pending_mission_moves(step(false));
    assert!(!app.workspaces[0].missions_pending);
    assert_eq!(app.workspaces_due_for_regen(at(0)), vec!["test-uuid-1"]);
}

#[test]
fn workspaces_due_for_regen_excludes_in_flight() {
    let mut app = make_app(with_surface());
    app.workspaces[0].regen.events_since_last_regen = 15;
    app.workspaces[0].regen.regen_in_flight = true;
    assert!(app.workspaces_due_for_regen(at(0)).is_empty());
}

#[test]
fn workspaces_due_for_regen_includes_past_time_threshold() {
    let mut app = make_app(with_surface());
    app.workspaces[0].regen.events_since_last_regen = 1;
    app.workspaces[0].regen.last_regen_at = None;
    assert_eq!(app.workspaces_due_for_regen(at(0)), vec!["test-uuid-1".to_string()]);
}

#[test]
fn workspaces_due_for_regen_event_threshold() {
    let mut app = make_app(with_surface());
    app.workspaces[0].regen.last_regen_at = Some(at(7));
    app.workspaces[0].regen.events_since_last_regen = 10;
    assert_eq!(app.workspaces_due_for_regen(at(7)), vec!["test-uuid-1".to_string()]);
}

#[test]
fn workspaces_due_for_regen_excludes_zero_events() {
    let mut app = make_app(with_surface());
    app.workspaces[0].regen.events_since_last_regen = 0;
    app.workspaces[0].regen.last_regen_at = None;
    assert!(app.workspaces_due_for_regen(at(0)).is_empty());
}

#[test]
fn workspaces_due_for_regen_includes_empty_mission_without_events() {
    let mut app = make_app(with_surface());
    app.workspaces[0]
        .trajectory
        .as_mut()
        .unwrap()
        .replace_section_items(SECTION_MISSION, Vec::new());
    app.workspaces[0].regen.events_since_last_regen = 0;
    app.workspaces[0].regen.last_regen_at = None;
    assert_eq!(app.workspaces_due_for_regen(at(0)), vec!["test-uuid-1".to_string()]);
}

#[test]
fn completed_mission_history_does_not_self_heal_into_active_work() {
    let mut app = make_app(with_surface());
    let doc = app.workspaces[0].trajectory.as_mut().unwrap();
    let mut completed = doc.section(SECTION_MISSION).unwrap().items[0].clone();
    completed.checked = Some(true);
    doc.replace_section_items(SECTION_MISSION, Vec::new());
    doc.mission_history.push(completed);
    app.workspaces[0].regen.events_since_last_regen = 0;
    app.workspaces[0].regen.last_regen_at = None;
    assert!(app.workspaces_due_for_regen(at(0)).is_empty());
}

#[test]
fn apply_regenerated_trajectory_replaces_and_resets() {
    let mut app = make_app(with_surface());
    app.workspaces[0].regen.events_since_last_regen = 5;
    app.workspaces[0].regen.regen_in_flight = true;
    let new_doc =
        doc_of(vec![bullet("Updated goal")], Vec::new(), vec![task("new task", false)]);
    app.apply_regenerated_trajectory("test-uuid-1", new_doc, at(3));
    let ws = &app.workspaces[0];
    assert_eq!(ws.regen.events_since_last_regen, 0);
    assert!(!ws.regen.regen_in_flight);
    assert_eq!(ws.regen.last_regen_at, Some(at(3)));
    assert!(doc_in(&app).rows(SECTION_MISSION).iter().any(|i| i.text.contains("Updated goal")));
}

#[test]
fn regen_preserves_registry_projected_linear_rows() {
    let mut app = make_app(with_surface());
    install_linear_view(&mut app, test_linear_view("MID-508"));
    let generated =
        doc_of(vec![bullet("Updated goal")], Vec::new(), vec![task("model-owned task", false)]);
    let fitted = app.fit_regenerated_trajectory("test-uuid-1", generated).expect("accepted");
    app.apply_regenerated_trajectory("test-uuid-1", fitted, at(0));
    let tasks = doc_in(&app).section(SECTION_GOALS).unwrap();
    assert_eq!(tasks.items.len(), 2);
    assert_eq!(tasks.items[0].text, "feature: group-grader");
    assert!(tasks.items[1].text.contains("MID-508"));
    assert!(tasks.items.iter().all(|item| !item.text.contains("model-owned")));
}

#[test]
fn apply_regenerated_trajectory_skips_insert_mode() {
    let mut app = make_app(with_surface());
    app.workspaces[0].regen.regen_in_flight = true;
    edit_of(&mut app).mode = insert_mode();
    let new_doc = doc_of(vec![bullet("Should not appear")], Vec::new(), Vec::new());
    app.apply_regenerated_trajectory("test-uuid-1", new_doc, at(0));
    assert!(!app.workspaces[0].regen.regen_in_flight);
    assert!(!doc_in(&app)
        .rows(SECTION_MISSION)
        .iter()
        .any(|i| i.text.contains("Should not appear")));
}

#[test]
fn apply_regenerated_trajectory_skips_pending_mission_relocation() {
    let mut app = make_app(with_surface());
    app.workspaces[0].regen.regen_in_flight = true;
    preview_completion(&mut app);
    let new_doc = doc_of(vec![bullet("Should not appear")], Vec::new(), Vec::new());
    app.apply_regenerated_trajectory("test-uuid-1", new_doc, at(0));
    let mission = doc_in(&app).section(SECTION_MISSION).unwrap();
    assert_eq!(mission.items[0].text, "Build investment agent");
    assert_eq!(mission.items[0].checked, Some(true));
    assert!(app.workspaces[0].missions_pending);
    assert!(!app.workspaces[0].regen.regen_in_flight);
}

// ---------------------------------------------------------------------------
// Dismissal
// ---------------------------------------------------------------------------

#[test]
fn first_d_records_pending_returns_false() {
    let mut app = make_app(with_surface());
    let executed = app.handle_dismissal_request("ws-1", at(0));
    assert!(!executed);
    assert_eq!(app.pending_dismissal_workspace(), Some("ws-1"));
}

#[test]
fn second_d_on_same_workspace_executes() {
    let mut app = make_app(with_surface());
    let mut ws2 = make_ws(with_surface());
    ws2.workspace.uuid = "ws-exec".to_string();
    app.workspaces.push(ws2);
    app.handle_dismissal_request("ws-exec", at(0));
    let executed = app.handle_dismissal_request("ws-exec", at(0));
    assert!(executed);
    assert!(app.pending_dismissal_workspace().is_none());
}

#[test]
fn d_on_different_workspace_replaces_pending() {
    let mut app = make_app(with_surface());
    app.handle_dismissal_request("ws-1", at(0));
    app.handle_dismissal_request("ws-2", at(0));
    assert_eq!(app.pending_dismissal_workspace(), Some("ws-2"));
}

#[test]
fn clear_pending_dismissal_resets() {
    let mut app = make_app(with_surface());
    app.handle_dismissal_request("ws-1", at(0));
    app.clear_pending_dismissal();
    assert!(app.pending_dismissal_workspace().is_none());
}

#[test]
fn force_regen_marks_workspace_due() {
    let mut app = make_app(with_surface());
    app.workspaces[0].regen.events_since_last_regen = 0;
    app.workspaces[0].regen.last_regen_at = Some(at(0));
    app.force_regen_selected_workspace();
    assert_eq!(app.workspaces[0].regen.events_since_last_regen, u32::MAX);
    assert!(app.workspaces[0].regen.last_regen_at.is_none());
    assert!(app.workspaces_due_for_regen(at(0)).contains(&"test-uuid-1".to_string()));
}

#[test]
fn force_regen_with_no_selection_is_noop() {
    let mut app = App::new();
    app.force_regen_selected_workspace();
    assert!(app.workspaces.is_empty());
}

#[test]
fn projected_task_row_distinguishes_injected_rows_from_goals() {
    assert!(is_projected_task_row("[P0] GTR-1 open · elonco send delivers brief"));
    assert!(is_projected_task_row("[P?] foo-1 in-progress · bar"));
    assert!(is_projected_task_row("repo: elonco"));
    assert!(is_projected_task_row("No active beads in gmail-triage"));
    assert!(is_projected_task_row("Beads unavailable in foo (bd list failed)"));
    assert!(is_projected_task_row("No active Linear issues"));
    assert!(is_projected_task_row("(Linear unavailable: API request failed)"));
    assert!(is_projected_task_row("(stale — Linear refresh unavailable)"));
    assert!(!is_projected_task_row("[MSC-1] build the thing"));
    assert!(!is_projected_task_row("ship the feature"));
    assert!(!is_projected_task_row("[Plan] outline the work"));
    assert!(!is_projected_task_row(""));
}

#[test]
fn intent_not_broadcast_to_nonfocused_surfaces() {
    let mk = |focused: bool| surface("Agent C", "surface:99", SurfaceKind::Claude, focused);
    let ask = Some("update arcmux to support native LLMs".to_string());
    let nf = surface_intent_summary(None, None, &ask, &mk(false), SurfaceKind::Claude, &None);
    assert!(nf.is_none());
    let f = surface_intent_summary(None, None, &ask, &mk(true), SurfaceKind::Claude, &None);
    assert!(f.and_then(|i| i.latest_ask).is_some());
}

#[test]
fn description_parses_to_goal_items() {
    let mut ws = make_ws(doc_of(Vec::new(), Vec::new(), Vec::new()));
    ws.workspace.description = Some("first\nsecond\n\nthird".to_string());
    assert!(seed_mission(&mut ws));
    let texts: Vec<String> = ws
        .trajectory
        .as_ref()
        .unwrap()
        .rows(SECTION_MISSION)
        .iter()
        .map(|i| i.text.clone())
        .collect();
    assert_eq!(texts, vec!["first", "second", "third"]);
    assert!(!seed_mission(&mut ws));
}
