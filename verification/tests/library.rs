//! Files, sources, schedules and rows, on concrete values.
use mission_control::agents::{known_agents, AgentTable};
use mission_control::app::{
    grab_candidates, nonblank, slug_of, trim_dashes, workspace_notes, workspace_slug, AgentEvent, App,
    RemoteGrabUpdate, RemoteIntentUpdate, ScreenUpdate,
};
use mission_control::app_keys::{same_agent_index, PeekRoute};
use mission_control::app_panes::mission_description;
use mission_control::assoc::Assoc;
use mission_control::beads::{gather_beads_refresh_snapshot, BeadsRefreshTarget};
use mission_control::clock::Moment;
use mission_control::command::{CommandLine, CommandTable, StatusLine};
use mission_control::detail::{detail_content, status_color, DetailContent};
use mission_control::files::{
    contents_with_extension, load_recent_user_explanations, load_surface_summaries,
    numbered_contents, surfaces_due_for_summary, NamedFile, SurfaceFile,
};
use mission_control::footer::{command_line, footer_line};
use mission_control::gather::{
    expected_window_ref, hostname_short, overall_summary_due, session_route, shows_beads,
    surface_report, BoundTranscript, SessionRoute,
};
use mission_control::intent::{known_intent, ConversationIntent};
use mission_control::keys::{KeyCode, KeyEvent, KeyModifiers};
use mission_control::numeral::parse_u32;
use mission_control::order::sort_dedup;
use mission_control::peek_view::{PeekSource, PeekState, Turn};
use mission_control::prefixes::{carry_prefix, record_prefix};
use mission_control::projection::{
    needs_prefix, surface_rows, GoalFacts, GoalsInput, RowText, SurfaceFacts,
};
use mission_control::refresh::{RefreshFiles, RefreshSnapshot};
use mission_control::regen::{session_paths, LearningFiles, RegenFiles};
use mission_control::screen::{tasks_countable, ScreenInsights};
use mission_control::sessions::sessions_by_workspace;
use mission_control::snapshot::{assemble_snapshot, Gathered, SurfaceFinding};
use mission_control::sources::{
    gather_linear_views, linear_query_groups, resolve_task_sources, LinearAnswer, SourceEvidence,
};
use mission_control::style::{Color, Line};
use mission_control::surface::{SurfaceInfo, SurfaceKind};
use mission_control::tasks::{
    bead_issue_line, beads_items_for_view, linear_issue_line, linear_items_for_view,
    repo_display_name, BeadIssue, BeadsSource, LinearIssue, LinearTarget, RepoBeadsView,
    TaskSource, WorkspaceBeadsView, WorkspaceLinearView,
};
use mission_control::trajectory::{
    Item, TrajectoryDoc, SECTION_CURRENT_SURFACES, SECTION_GOALS, SECTION_MISSION,
};
use mission_control::trajectory_edit::{
    EditAction, EditMode, EventKind, InsertFocus, TrajectoryEditState,
};
use mission_control::trajectory_view::RenderHints;
use mission_control::workspace::{
    dir_in_title, host_in_title, DismissalState, Focus, MuxSessionState, RegenSchedulerState, SessionFile,
    SessionFrontmatter, Summary, Workspace, WorkspaceState,
};

fn at(secs: u64) -> Moment {
    Moment { nanos: secs as i64 * 1_000_000_000 }
}

fn agents() -> AgentTable {
    known_agents("agent-c", "Agent C")
}

fn strings(items: &[&str]) -> Vec<String> {
    items.iter().map(|s| s.to_string()).collect()
}

fn bullet(text: &str) -> Item {
    Item { text: text.to_string(), is_checkbox: false, checked: None, surface_id: None }
}

fn task(text: &str) -> Item {
    Item { text: text.to_string(), is_checkbox: true, checked: Some(false), surface_id: None }
}

fn doc_of(mission: Vec<Item>, surfaces: Vec<Item>, goals: Vec<Item>) -> TrajectoryDoc {
    let mut doc = TrajectoryDoc::default();
    doc.ensure_sections();
    doc.sections[0].items = mission;
    doc.sections[1].items = surfaces;
    doc.sections[2].items = goals;
    doc
}

fn table<V>(entries: Vec<(&str, V)>) -> Assoc<V> {
    let mut t = Assoc::new();
    for (k, v) in entries {
        t.insert(k.to_string(), v);
    }
    t
}

fn surface(title: &str, ref_id: &str, kind: SurfaceKind) -> SurfaceInfo {
    SurfaceInfo {
        title: title.to_string(),
        ref_id: ref_id.to_string(),
        uuid: None,
        tty: None,
        kind,
        focused: false,
    }
}

fn session_file(path: &str, workspace: Option<&str>, bullets: &[&str]) -> SessionFile {
    SessionFile {
        path: path.to_string(),
        frontmatter: SessionFrontmatter {
            workspace_id: workspace.map(|w| w.to_string()),
            agent: None,
            host: None,
            topic: None,
        },
        trajectory: None,
        bullets: strings(bullets),
        next_steps: Vec::new(),
    }
}

fn workspace_state(uuid: &str, ref_id: &str, name: &str) -> WorkspaceState {
    WorkspaceState {
        workspace: Workspace {
            window_id: Some("window-test".to_string()),
            window_ref: Some("window:1".to_string()),
            ref_id: ref_id.to_string(),
            uuid: uuid.to_string(),
            name: name.to_string(),
            description: None,
            current_directory: None,
            custom_color: None,
        },
        session: None,
        surfaces: Vec::new(),
        remote_surfaces: Assoc::new(),
        screen_preview: None,
        screen_insights: ScreenInsights::default(),
        tool_call_count: 0,
        notes: None,
        mux_status: None,
        classification: None,
        loading: false,
        summary: None,
        beads: None,
        linear: None,
        linear_open_pending: None,
        summarizing: false,
        trajectory: None,
        edit_state: None,
        missions_pending: false,
        peek_state: None,
        peek_yield_pending: false,
        regen: RegenSchedulerState {
            last_regen_at: None,
            events_since_last_regen: 0,
            regen_in_flight: false,
        },
        dismissal: DismissalState { open_surfaces: 0, grace_started_at: None, dismissing: false },
        dispatch_modal: None,
        dispatch_pending_outcome: None,
        dispatch_error: None,
    }
}

fn app_of(names: &[&str]) -> App {
    let mut app = App::new();
    for (i, name) in names.iter().enumerate() {
        app.workspaces.push(workspace_state(
            &format!("u{i}"),
            &format!("workspace:{i}"),
            name,
        ));
    }
    app
}

fn texts(lines: &[Line]) -> Vec<String> {
    lines.iter().map(|l| l.content()).collect()
}

// ---------------------------------------------------------------------------
// Names, numbers and order
// ---------------------------------------------------------------------------

#[test]
fn a_slug_keeps_letters_and_digits() {
    assert_eq!(workspace_slug("Mission Control 2"), "Mission-Control-2");
    assert_eq!(workspace_slug("  --Äpfel & Öl_1!-- "), "Äpfel---Öl_1");
    assert_eq!(workspace_slug("日本語"), "日本語");
    assert_eq!(workspace_slug("***"), "");
    assert_eq!(trim_dashes(&"--a-b--".chars().collect()), "a-b");
    assert_eq!(slug_of(&"a.b".chars().collect(), &vec![true, false, true]), "a-b");
    assert_eq!(slug_of(&"a.b".chars().collect(), &vec![false, false, true]), "b");
}

#[test]
fn blank_notes_are_no_notes() {
    assert_eq!(nonblank(Some(" \n".to_string())), None);
    assert_eq!(nonblank(Some(" x ".to_string())).as_deref(), Some(" x "));
    assert_eq!(nonblank(None), None);
    let files = table(vec![("My WS", "remember".to_string()), ("other", "".to_string())]);
    assert_eq!(workspace_notes("My WS", &files).as_deref(), Some("remember"));
    assert_eq!(workspace_notes("other", &files), None);
    let app = app_of(&["My WS"]);
    assert_eq!(app.notes_path_for("/notes", &app.workspaces[0]), "/notes/My-WS.md");
}

#[test]
fn notes_are_loaded_for_every_workspace() {
    let mut app = app_of(&["one", "two"]);
    app.load_notes(&table(vec![("two", "n".to_string())]));
    assert_eq!(app.workspaces[0].notes, None);
    assert_eq!(app.workspaces[1].notes.as_deref(), Some("n"));
}

fn parsed(text: &str) -> Option<u32> {
    parse_u32(&text.chars().collect())
}

#[test]
fn numbers_are_read_as_usual() {
    for text in
        ["0", "7", "010", "4294967295", "4294967296", "+7", "-7", "", "+", "1x", " 1", "٣"]
    {
        assert_eq!(parsed(text), text.parse::<u32>().ok());
    }
}

#[test]
fn sorting_drops_repeats() {
    assert_eq!(sort_dedup(&strings(&["b", "a", "b", "ab"])), strings(&["a", "ab", "b"]));
    assert!(sort_dedup(&Vec::new()).is_empty());
}

// ---------------------------------------------------------------------------
// Files
// ---------------------------------------------------------------------------

fn file(stem: &str, extension: &str, content: Option<&str>) -> NamedFile {
    NamedFile {
        stem: stem.to_string(),
        extension: Some(extension.to_string()),
        content: content.map(|c| c.to_string()),
    }
}

#[test]
fn numbered_files_come_in_the_order_of_their_numbers() {
    let files = vec![
        file("input_10", "md", Some("ten")),
        file("input_2", "md", Some("two")),
        file("input_x", "md", Some("no number")),
        file("other_1", "md", Some("other")),
        file("input_3", "md", None),
    ];
    assert_eq!(numbered_contents(&files, "input_", Some("md")), strings(&["two", "ten"]));
    assert_eq!(numbered_contents(&files, "input_", Some("txt")), Vec::<String>::new());
}

#[test]
fn only_the_latest_explanations_are_kept() {
    let files: Vec<NamedFile> = [5, 10, 1, 7]
        .iter()
        .map(|i| file(&i.to_string(), "txt", Some(&format!("e{i}"))))
        .collect();
    assert_eq!(load_recent_user_explanations(&files, 3), strings(&["e5", "e7", "e10"]));
}

#[test]
fn files_are_told_apart_by_extension() {
    let files = vec![file("a", "md", Some("x")), file("b", "txt", Some("y")), file("c", "md", None)];
    assert_eq!(contents_with_extension(&files, "md"), strings(&["x"]));
    let paths = vec![file("s1", "session-path", Some(" /logs/a.md\n"))];
    assert_eq!(session_paths(&paths), strings(&["/logs/a.md"]));
}

#[test]
fn summaries_are_named_after_their_surfaces() {
    let found = load_surface_summaries(&vec![
        file("surface_1", "summary", Some("text")),
        file("surface_2", "log", Some("other")),
    ]);
    assert_eq!(found, vec![("surface_1".to_string(), "text".to_string())]);
}

#[test]
fn a_summary_older_than_its_log_is_due() {
    let log = |stem: &str, modified: Option<u64>, summary: Option<u64>| SurfaceFile {
        stem: stem.to_string(),
        extension: Some("log".to_string()),
        modified,
        has_summary: summary.is_some(),
        summary_modified: summary,
    };
    let mut other = log("other", Some(9), None);
    other.extension = Some("summary".to_string());
    let due = surfaces_due_for_summary(&vec![
        log("fresh", Some(5), Some(9)),
        log("old", Some(9), Some(5)),
        log("never", Some(1), None),
        other,
    ]);
    assert_eq!(due, strings(&["old", "never"]));
}

// ---------------------------------------------------------------------------
// Sources
// ---------------------------------------------------------------------------

fn linear_target(project: &str, labels: &[&str], feature: Option<&str>) -> TaskSource {
    TaskSource::Linear(LinearTarget {
        team_id: None,
        project_id: project.to_string(),
        labels: strings(labels),
        feature_name: feature.map(|f| f.to_string()),
    })
}

fn issue(identifier: &str) -> LinearIssue {
    LinearIssue {
        identifier: identifier.to_string(),
        title: "Title".to_string(),
        priority: 2,
        state_name: "Todo".to_string(),
        desktop_url: None,
    }
}

#[test]
fn every_target_is_asked_for_once() {
    let sources = table(vec![
        ("a", linear_target("p1", &["x"], Some("fa"))),
        ("b", linear_target("p1", &["x"], Some("fb"))),
        ("c", linear_target("p2", &[], None)),
        ("d", TaskSource::Beads),
    ]);
    let groups = linear_query_groups(&sources);
    assert_eq!(groups.len(), 2);
    let total: usize = groups.iter().map(|g| g.targets.len()).sum();
    assert_eq!(total, 3);
}

#[test]
fn answers_reach_every_workspace_of_their_group() {
    let sources = table(vec![
        ("a", linear_target("p1", &[], Some("fa"))),
        ("b", linear_target("p1", &[], Some("fb"))),
        ("c", TaskSource::LinearUnavailable),
        ("d", TaskSource::Unregistered),
    ]);
    let answers = vec![Some(LinearAnswer { issues: vec![issue("I-1")], warning: None })];
    let views = gather_linear_views(&sources, &answers);
    assert_eq!(views.get("a").unwrap().issues[0].identifier, "I-1");
    assert_eq!(views.get("a").unwrap().feature_name.as_deref(), Some("fa"));
    assert_eq!(views.get("b").unwrap().feature_name.as_deref(), Some("fb"));
    assert!(views.get("c").unwrap().warning.is_some());
    assert!(views.get("d").is_none());
}

#[test]
fn without_a_registry_nothing_is_resolved() {
    let evidence = |id: &str| SourceEvidence {
        workspace_id: id.to_string(),
        identity: TaskSource::Unregistered,
        directory: Some(TaskSource::Beads),
        repos: Vec::new(),
    };
    let resolved = resolve_task_sources(vec![evidence("a")], true);
    assert_eq!(resolved.get("a"), Some(&TaskSource::Beads));
    let unresolved = resolve_task_sources(vec![evidence("a")], false);
    assert_eq!(unresolved.get("a"), Some(&TaskSource::Unregistered));
    assert!(shows_beads(None));
    assert!(shows_beads(Some(&TaskSource::Beads)));
    assert!(!shows_beads(Some(&linear_target("p", &[], None))));
}

// ---------------------------------------------------------------------------
// Rows
// ---------------------------------------------------------------------------

#[test]
fn task_rows_show_priority_state_and_title() {
    assert_eq!(linear_issue_line(&issue("I-1")), "[P2] I-1 Todo · Title");
    let bead = BeadIssue {
        id: "b-1".to_string(),
        title: "Bead".to_string(),
        status: "in_progress".to_string(),
        priority: None,
        closed: false,
    };
    assert_eq!(bead_issue_line(&bead), "[P?] b-1 in-progress · Bead");
    assert_eq!(repo_display_name("/a/b/repo"), "repo");
}

#[test]
fn a_failed_refresh_is_told_in_the_rows() {
    let view = WorkspaceLinearView {
        project_id: "p".to_string(),
        required_labels: Vec::new(),
        feature_name: None,
        issues: Vec::new(),
        warning: Some("Linear unavailable: API request failed".to_string()),
    };
    let rows: Vec<String> = linear_items_for_view(&view).into_iter().map(|i| i.text).collect();
    assert_eq!(rows, strings(&["  (Linear unavailable: API request failed)"]));
    let empty = WorkspaceLinearView { warning: None, ..view };
    let rows: Vec<String> = linear_items_for_view(&empty).into_iter().map(|i| i.text).collect();
    assert_eq!(rows, strings(&["No active Linear issues"]));
}

#[test]
fn a_repo_without_beads_says_so() {
    let view = WorkspaceBeadsView {
        repos: vec![RepoBeadsView {
            repo_path: "/a/repo".to_string(),
            source: BeadsSource::Available,
            issues: Vec::new(),
        }],
        repo_by_surface_ref: Assoc::new(),
    };
    let rows: Vec<String> =
        beads_items_for_view(&view, None).into_iter().map(|i| i.text).collect();
    assert_eq!(rows[0], "repo: repo");
    assert_eq!(rows.len(), 2);
}

#[test]
fn gone_surfaces_have_no_row_and_titles_fit_their_kind() {
    let mut ws = workspace_state("u", "workspace:1", "ws");
    ws.surfaces = vec![
        surface("one", "surface:1", SurfaceKind::Codex),
        surface("two", "surface:2", SurfaceKind::Shell),
    ];
    let facts = |kind: SurfaceKind| SurfaceFacts {
        effective: kind,
        remote_kind: SurfaceKind::Remote,
        remote_title: String::new(),
        resolved: Some(ConversationIntent {
            overall_goal: Some("goal".to_string()),
            latest_ask: None,
        }),
        session: None,
        screen_ask: None,
        goal: None,
    };
    let rows = surface_rows(
        &ws,
        &vec![facts(SurfaceKind::Codex), facts(SurfaceKind::Shell)],
        &Assoc::new(),
    );
    assert_eq!(rows.len(), 2);
    assert_eq!(rows[0].surface_ref, "surface:1");
    assert_eq!(rows[0].title, "one");
    assert_eq!(rows[0].kind, SurfaceKind::Codex);
}

#[test]
fn goals_get_identifiers_and_badges() {
    let mut app = app_of(&["ws"]);
    app.workspaces[0].trajectory =
        Some(doc_of(Vec::new(), Vec::new(), vec![task("ship it"), task("[A-1] test it")]));
    assert!(needs_prefix(&app.workspaces[0], false));
    let goals = GoalsInput {
        has_goals: true,
        has_prefix: true,
        prefix_picked: true,
        rows: vec![
            GoalFacts {
                raw: "ship it".to_string(),
                id: None,
                badge: Some("   → ✻ surface:1".to_string()),
                identified: false,
            },
            GoalFacts {
                raw: "test it".to_string(),
                id: Some("A-1".to_string()),
                badge: None,
                identified: true,
            },
        ],
        fresh_ids: strings(&["A-2", "A-3"]),
    };
    let rows = vec![RowText { text: "▲ codex".to_string(), surface_ref: "surface:1".to_string() }];
    let done = app.project_workspace(0, &rows, &goals);
    assert!(done.save_document);
    assert_eq!(done.ids_taken, 1);
    let doc = app.workspaces[0].trajectory.as_ref().unwrap();
    let shown: Vec<String> = doc.rows(SECTION_GOALS).into_iter().map(|i| i.text).collect();
    assert_eq!(shown, strings(&["[A-2] ship it   → ✻ surface:1", "[A-1] test it"]));
    let surfaces = doc.rows(SECTION_CURRENT_SURFACES);
    assert_eq!(surfaces[0].text, "▲ codex");
    assert_eq!(surfaces[0].surface_id.as_deref(), Some("surface:1"));
}

#[test]
fn projecting_linear_rows_again_changes_nothing() {
    let mut app = app_of(&["ws"]);
    app.workspaces[0].trajectory = Some(doc_of(Vec::new(), Vec::new(), vec![task("old")]));
    app.workspaces[0].linear = Some(WorkspaceLinearView {
        project_id: "p".to_string(),
        required_labels: Vec::new(),
        feature_name: None,
        issues: vec![issue("I-1")],
        warning: None,
    });
    let none = GoalsInput {
        has_goals: false,
        has_prefix: false,
        prefix_picked: false,
        rows: Vec::new(),
        fresh_ids: Vec::new(),
    };
    assert!(app.project_workspace(0, &Vec::new(), &none).save_document);
    let first = app.workspaces[0].trajectory.as_ref().unwrap().clone();
    assert!(!app.project_workspace(0, &Vec::new(), &none).save_document);
    assert_eq!(app.workspaces[0].trajectory.as_ref().unwrap(), &first);
}

#[test]
fn fresh_beads_are_joined_with_their_repos() {
    let target = BeadsRefreshTarget {
        generation: 4,
        workspace_id: "u".to_string(),
        repo_roots: strings(&["/a", "/b"]),
        repo_by_surface_ref: table(vec![("surface:1", "/b".to_string())]),
    };
    let loaded = table(vec![(
        "/a",
        RepoBeadsView {
            repo_path: "/a".to_string(),
            source: BeadsSource::Available,
            issues: Vec::new(),
        },
    )]);
    let snap = gather_beads_refresh_snapshot(vec![target], &loaded);
    assert_eq!(snap.generation, 4);
    let view = snap.beads_by_ws_id.get("u").unwrap();
    assert_eq!(view.repos[0].repo_path, "/a");
    assert_eq!(view.repo_by_surface_ref.get("surface:1").unwrap(), "/b");
}

// ---------------------------------------------------------------------------
// Refreshes
// ---------------------------------------------------------------------------

fn workspaces(app: &App) -> Vec<Workspace> {
    app.workspaces.iter().map(|w| w.workspace.clone()).collect()
}

#[test]
fn an_unread_tree_is_not_relied_on() {
    let app = app_of(&["a", "b"]);
    let ws = workspaces(&app);
    let unread = surface_report(&ws, None);
    assert!(!unread.reliable());
    assert_eq!(unread.strict_failure().as_deref(), Some("get cmux surfaces"));

    let map = table(vec![("workspace:0", vec![surface("s", "surface:1", SurfaceKind::Shell)])]);
    let partial = surface_report(&ws, Some(&map));
    assert_eq!(
        partial.strict_failure().as_deref(),
        Some("cmux tree missing workspaces from current window: workspace:1")
    );

    let empty = table(vec![("workspace:0", Vec::new()), ("workspace:1", Vec::new())]);
    let bare = surface_report(&ws, Some(&empty));
    assert_eq!(
        bare.strict_failure().as_deref(),
        Some("cmux tree reported no surfaces for current window")
    );

    let full = table(vec![
        ("workspace:0", vec![surface("s", "surface:1", SurfaceKind::Shell)]),
        ("workspace:1", Vec::new()),
    ]);
    let good = surface_report(&ws, Some(&full));
    assert!(good.reliable());
    assert_eq!(good.strict_failure(), None);
    assert_eq!(expected_window_ref(&ws).as_deref(), Some("window:1"));
}

#[test]
fn a_bound_transcript_wins_over_a_lookup() {
    let kinds = vec![SurfaceKind::Codex, SurfaceKind::Shell, SurfaceKind::Codex];
    let said = || ConversationIntent {
        overall_goal: None,
        latest_ask: Some("ask".to_string()),
    };
    assert_eq!(session_route(&kinds, 1, Some(said()), None), SessionRoute::NoAgent);
    assert_eq!(session_route(&kinds, 2, None, None), SessionRoute::Lookup(1));
    assert_eq!(session_route(&kinds, 0, None, None), SessionRoute::Lookup(0));
    assert_eq!(
        session_route(&kinds, 0, Some(said()), Some("sum".to_string())),
        SessionRoute::Bound(ConversationIntent {
            overall_goal: Some("sum".to_string()),
            latest_ask: Some("ask".to_string()),
        })
    );
    let blank = ConversationIntent { overall_goal: None, latest_ask: None };
    assert_eq!(session_route(&kinds, 0, Some(blank), None), SessionRoute::Lookup(0));
    assert!(known_intent(ConversationIntent { overall_goal: None, latest_ask: None }).is_none());
    assert!(known_intent(said()).is_some());
}

#[test]
fn overall_summaries_come_first_and_then_every_fourth_turn() {
    assert!(!overall_summary_due(0, 0));
    assert!(overall_summary_due(1, 0));
    assert!(!overall_summary_due(4, 1));
    assert!(overall_summary_due(5, 1));
    assert!(!overall_summary_due(1, 5));
}

#[test]
fn the_host_name_is_in_lower_case() {
    assert_eq!(hostname_short(Some(" MBP\n".to_string())), "mbp");
    assert_eq!(hostname_short(None), "localhost");
}

#[test]
fn a_refresh_keeps_what_the_user_is_doing() {
    let mut app = app_of(&["a"]);
    app.workspaces[0].trajectory = Some(doc_of(vec![task("mine")], Vec::new(), Vec::new()));
    app.workspaces[0].peek_state = Some(PeekState::new(
        "workspace:0".to_string(),
        "surface:1".to_string(),
        "s".to_string(),
        PeekSource::Shell,
    ));
    app.workspaces[0].tool_call_count = 9;
    let snap = RefreshSnapshot {
        workspaces: workspaces(&app),
        surfaces_map: Assoc::new(),
        sessions_by_ws_id: Assoc::new(),
        beads_by_ws_id: Assoc::new(),
        linear_by_ws_id: Assoc::new(),
        surface_intents_by_ws_id: Assoc::new(),
        remote_mesh: None,
        mesh_warning: Some("mesh down".to_string()),
    };
    let files = RefreshFiles {
        trajectories: table(vec![("u0", doc_of(vec![task("theirs")], Vec::new(), Vec::new()))]),
        notes: table(vec![("a", "note".to_string())]),
    };
    app.apply_refresh_snapshot(snap, &files);
    let ws = &app.workspaces[0];
    assert_eq!(ws.trajectory.as_ref().unwrap().rows(SECTION_MISSION)[0].text, "mine");
    assert!(ws.peek_state.is_some());
    assert_eq!(ws.tool_call_count, 9);
    assert_eq!(ws.notes.as_deref(), Some("note"));
    assert_eq!(app.mesh_warning.as_deref(), Some("mesh down"));
}

fn gathered(surfaces: Option<Assoc<Vec<SurfaceInfo>>>) -> Gathered {
    let said = |goal: &str| ConversationIntent {
        overall_goal: Some(goal.to_string()),
        latest_ask: None,
    };
    let finding = |surface_ref: &str, route: SessionRoute, log: Option<ConversationIntent>| {
        SurfaceFinding { surface_ref: surface_ref.to_string(), route, log }
    };
    let beads = || WorkspaceBeadsView { repos: Vec::new(), repo_by_surface_ref: Assoc::new() };
    Gathered {
        workspaces: workspaces(&app_of(&["a", "b"])),
        surfaces,
        session_files: vec![session_file("/1.md", Some("u1"), &[])],
        findings: table(vec![
            (
                "u0",
                vec![
                    finding("surface:1", SessionRoute::Bound(said("bound")), None),
                    finding("surface:2", SessionRoute::Lookup(0), Some(said("logged"))),
                    finding("surface:3", SessionRoute::Lookup(1), None),
                    finding("surface:4", SessionRoute::NoAgent, Some(said("ignored"))),
                ],
            ),
            ("u1", vec![finding("surface:5", SessionRoute::NoAgent, None)]),
        ]),
        sources: table(vec![("u0", linear_target("p", &[], None)), ("u1", TaskSource::Beads)]),
        beads: table(vec![("u0", beads()), ("u1", beads())]),
        answers: vec![Some(LinearAnswer { issues: vec![issue("I-1")], warning: None })],
        mesh: None,
        mesh_warning: Some("down".to_string()),
    }
}

#[test]
fn a_snapshot_holds_what_was_gathered() {
    let surfaces = table(vec![
        ("workspace:0", vec![surface("s", "surface:1", SurfaceKind::Codex)]),
        ("workspace:1", Vec::new()),
    ]);
    let snap = match assemble_snapshot(gathered(Some(surfaces)), true) {
        Ok(snap) => snap,
        Err(e) => panic!("{e}"),
    };
    assert_eq!(snap.workspaces.len(), 2);
    assert_eq!(snap.sessions_by_ws_id.get("u1").unwrap().path, "/1.md");
    let intents = snap.surface_intents_by_ws_id.get("u0").unwrap();
    let goal = |r: &str| intents.get(r).map(|i| i.overall_goal.clone().unwrap());
    assert_eq!(goal("surface:1").as_deref(), Some("bound"));
    assert_eq!(goal("surface:2").as_deref(), Some("logged"));
    assert_eq!(goal("surface:3"), None);
    assert_eq!(goal("surface:4"), None);
    assert!(snap.surface_intents_by_ws_id.get("u1").is_none());
    assert!(snap.linear_by_ws_id.get("u0").is_some());
    assert!(snap.beads_by_ws_id.get("u0").is_none());
    assert!(snap.linear_by_ws_id.get("u1").is_none());
    assert!(snap.beads_by_ws_id.get("u1").is_some());
    assert_eq!(snap.mesh_warning.as_deref(), Some("down"));
}

#[test]
fn only_a_strict_refresh_fails_without_surfaces() {
    let failure = assemble_snapshot(gathered(None), true).err();
    assert_eq!(failure.as_deref(), Some("get cmux surfaces"));
    let lenient = assemble_snapshot(gathered(None), false);
    assert!(lenient.is_ok_and(|snap| snap.surfaces_map.entries.is_empty()));
}

#[test]
fn sessions_are_matched_by_workspace() {
    let app = app_of(&["a", "b"]);
    let found = sessions_by_workspace(
        &workspaces(&app),
        vec![
            session_file("/1.md", Some("u1"), &[]),
            session_file("/2.md", Some("elsewhere"), &[]),
            session_file("/3.md", None, &[]),
        ],
    );
    assert_eq!(found.get("u1").unwrap().path, "/1.md");
    assert!(found.get("u0").is_none());
}

// ---------------------------------------------------------------------------
// The application
// ---------------------------------------------------------------------------

#[test]
fn steps_through_the_list_cancel_out() {
    let mut app = app_of(&["a", "b", "c"]);
    app.previous();
    assert_eq!(app.selected, 2);
    app.next();
    assert_eq!(app.selected, 0);
    app.next();
    app.previous();
    assert_eq!(app.selected, 0);
    app.detail_scroll = 1;
    app.scroll_up();
    app.scroll_up();
    assert_eq!(app.detail_scroll, 0);
    app.scroll_down();
    assert!(app.detail_scroll > 0);
}

#[test]
fn events_count_towards_a_summary() {
    let mut app = app_of(&["a"]);
    let event = AgentEvent {
        session_id: "s".to_string(),
        workspace_id: "u0".to_string(),
        event_name: "agent.hook.PostToolUse".to_string(),
    };
    app.handle_agent_event(&event);
    app.handle_agent_event(&event);
    assert_eq!(app.session_to_workspace.get("s").unwrap(), "u0");
    assert_eq!(app.workspaces[0].tool_call_count, 2);
    assert!(!app.needs_summary("u0", 2));
    app.workspaces[0].session = Some(session_file("/1.md", Some("u0"), &[]));
    assert!(app.needs_summary("u0", 2));
    assert!(!app.needs_summary("u0", 3));
    assert!(!app.needs_summary("nobody", 0));
    app.set_summarizing("u0");
    assert!(app.workspaces[0].summarizing);
    app.apply_summary(
        "u0",
        Summary { trajectory: "on track".to_string(), next_steps: strings(&["ship"]) },
    );
    assert!(!app.workspaces[0].summarizing);
    assert_eq!(app.workspaces[0].summary.as_ref().unwrap().trajectory, "on track");
    app.reset_tool_count("u0");
    assert_eq!(app.workspaces[0].tool_call_count, 0);
}

#[test]
fn a_changed_session_is_reported_once() {
    let mut app = app_of(&["a"]);
    let first = app.handle_file_changed(Some(session_file("/1.md", Some("u0"), &["x"])));
    let again = app.handle_file_changed(Some(session_file("/1.md", Some("u0"), &["x"])));
    let changed = app.handle_file_changed(Some(session_file("/1.md", Some("u0"), &["x", "y"])));
    assert_eq!(again, None);
    assert_eq!(changed.as_deref(), Some("u0"));
    assert_eq!(first, None);
    assert_eq!(app.handle_file_changed(Some(session_file("/2.md", None, &["x"]))), None);
    assert_eq!(app.handle_file_changed(None), None);
    assert_eq!(app.handle_file_changed(Some(session_file("/3.md", Some("u0"), &["z"]))), None);
    let back = app.handle_file_changed(Some(session_file("/1.md", Some("u0"), &["x"])));
    assert_eq!(back.as_deref(), Some("u0"));
    app.handle_file_changed(Some(session_file("/1.md", Some("u0"), &["x", "y"])));
    assert_eq!(app.workspaces[0].session.as_ref().unwrap().bullets.len(), 2);
}

#[test]
fn a_screen_update_is_read() {
    let mut app = app_of(&["a"]);
    app.workspaces[0].loading = true;
    app.apply_screen_update(
        ScreenUpdate {
            workspace_uuid: "u0".to_string(),
            screen: Some("✻ Cooked for 3s\n0:CODEX\n".to_string()),
            classification: None,
        },
        &agents(),
    );
    let ws = &app.workspaces[0];
    assert!(!ws.loading);
    assert_eq!(ws.screen_insights.duration.as_deref(), Some("3s"));
    assert_eq!(ws.screen_insights.agent.as_deref(), Some("codex"));
    assert!(ws.screen_preview.is_some());
}

#[test]
fn remote_grabs_are_numbered_and_answered() {
    let mut app = app_of(&["a"]);
    let first = app.next_grab_tick();
    let second = app.next_grab_tick();
    assert_eq!(second, first + 1);
    app.workspaces[0].surfaces = vec![surface("s", "surface:1", SurfaceKind::Codex)];
    assert!(grab_candidates(&app.workspaces[0]).len() <= 1);
    let update = RemoteGrabUpdate {
        workspace_uuid: "u0".to_string(),
        surface_ref: "surface:1".to_string(),
        raw: "screen".to_string(),
    };
    assert_eq!(app.apply_remote_grab(update, None), None);
    app.apply_remote_intent(RemoteIntentUpdate {
        surface_ref: "surface:1".to_string(),
        intent: ConversationIntent {
            overall_goal: Some("goal".to_string()),
            latest_ask: None,
        },
    });
    assert_eq!(
        app.remote_intents.get("surface:1").unwrap().overall_goal.as_deref(),
        Some("goal")
    );
}

#[test]
fn captures_mark_their_workspaces_as_loading() {
    let mut app = app_of(&["a", "b"]);
    let one = app.start_screen_capture().unwrap();
    assert_eq!(one.workspace_uuid, "u0");
    assert_eq!(one.ref_id, "workspace:0");
    assert!(app.workspaces[0].loading);
    assert!(!app.workspaces[1].loading);
    let all = app.start_all_screen_captures();
    assert!(!all.is_empty());
    assert!(app.workspaces[1].loading);
    assert!(App::new().start_screen_capture().is_none());
}

#[test]
fn a_peek_polls_and_takes_its_screen() {
    let mut app = app_of(&["a"]);
    assert!(app.peek_needs_poll(at(0)).is_none());
    app.workspaces[0].peek_state = Some(PeekState::new(
        "workspace:0".to_string(),
        "surface:1".to_string(),
        "s".to_string(),
        PeekSource::Shell,
    ));
    assert!(app.peek_needs_poll(at(0)).is_some());
    app.mark_peek_polling();
    assert!(app.peek_needs_poll(at(0)).is_none());
    app.apply_peek_screen_update("u0", "line\n".to_string(), at(1));
    let peek = app.workspaces[0].peek_state.as_ref().unwrap();
    assert_eq!(peek.screen_buffer, strings(&["line"]));
    let turns = vec![Turn {
        time: "09:00".to_string(),
        role: "user".to_string(),
        content: "hi".to_string(),
    }];
    app.refresh_agent_peek_buffer("u0", Some(&turns), at(2));
    let peek = app.workspaces[0].peek_state.as_ref().unwrap();
    assert_eq!(peek.screen_buffer, strings(&["line"]));
}

#[test]
fn an_agents_peek_shows_its_log() {
    let mut app = app_of(&["a"]);
    app.workspaces[0].surfaces = vec![
        surface("s", "surface:1", SurfaceKind::Codex),
        surface("t", "surface:2", SurfaceKind::Codex),
    ];
    app.workspaces[0].trajectory = Some(doc_of(
        Vec::new(),
        vec![Item { surface_id: Some("surface:2".to_string()), ..bullet("▲ codex") }],
        Vec::new(),
    ));
    app.workspaces[0].edit_state =
        Some(TrajectoryEditState { cursor_section: 1, ..Default::default() });
    assert_eq!(app.peek_target(), Some(("surface:2".to_string(), SurfaceKind::Codex)));
    assert_eq!(
        same_agent_index(&app.workspaces[0].surfaces, SurfaceKind::Codex, "surface:2"),
        1
    );
    let route = PeekRoute {
        effective: SurfaceKind::Codex,
        session_path: Some("/log.md".to_string()),
    };
    let enter = KeyEvent { code: KeyCode::Enter, modifiers: KeyModifiers::Plain };
    app.handle_trajectory_key(enter, at(0), &route);
    let peek = app.workspaces[0].peek_state.as_ref().unwrap();
    assert_eq!(peek.source, PeekSource::Agent { session_path: "/log.md".to_string() });
    assert_eq!(peek.surface_label, "▲ codex (surface:2)");
}

#[test]
fn enter_on_a_goal_opens_the_dispatch_modal() {
    let mut app = app_of(&["a"]);
    app.workspaces[0].trajectory =
        Some(doc_of(vec![task("m")], Vec::new(), vec![task("ship it")]));
    app.workspaces[0].edit_state =
        Some(TrajectoryEditState { cursor_section: 2, ..Default::default() });
    let route = PeekRoute { effective: SurfaceKind::Unknown, session_path: None };
    let press = |app: &mut App, code: KeyCode| {
        app.handle_trajectory_key(
            KeyEvent { code, modifiers: KeyModifiers::Plain },
            at(0),
            &route,
        )
    };
    press(&mut app, KeyCode::Enter);
    assert_eq!(app.workspaces[0].dispatch_modal.as_ref().unwrap().goal_text, "ship it");
    app.set_dispatch_error("busy".to_string());
    assert_eq!(app.workspaces[0].dispatch_error.as_deref(), Some("busy"));
    press(&mut app, KeyCode::Char('n'));
    assert_eq!(app.workspaces[0].dispatch_error, None);
    press(&mut app, KeyCode::Char('x'));
    assert!(app.take_dispatch_outcome().is_some());
    assert!(app.take_dispatch_outcome().is_none());
    app.close_dispatch_modal();
    assert!(app.workspaces[0].dispatch_modal.is_none());
}

#[test]
fn edits_are_saved_as_the_next_snapshot() {
    let mut app = app_of(&["a"]);
    app.workspaces[0].trajectory = Some(doc_of(vec![task("new")], Vec::new(), Vec::new()));
    app.workspaces[0].edit_state = Some(TrajectoryEditState {
        input_ctx_buffer: " because ".to_string(),
        ..Default::default()
    });
    let actions = vec![EditAction::Edit {
        section: SECTION_MISSION.to_string(),
        before: "old".to_string(),
        after: "new".to_string(),
    }];
    let plan = app.save_trajectory_edits(&actions, 6).unwrap();
    assert_eq!(plan.snapshot, 7);
    assert_eq!(plan.events.len(), 1);
    assert_eq!(plan.events[0].kind, EventKind::Edit);
    assert_eq!(plan.events[0].before.as_deref(), Some("old"));
    assert_eq!(plan.events[0].after.as_deref(), Some("new"));
    assert_eq!(plan.events[0].snapshot, 7);
    assert!(app.save_trajectory_edits(&Vec::new(), 6).unwrap().events.is_empty());
    assert_eq!(
        mission_description(app.workspaces[0].trajectory.as_ref().unwrap()),
        "new"
    );
    assert_eq!(app.selected_mission(), Some(("workspace:0".to_string(), "new".to_string())));
}

// ---------------------------------------------------------------------------
// Regeneration and dismissal
// ---------------------------------------------------------------------------

#[test]
fn a_regeneration_is_due_after_five_minutes() {
    let mut app = app_of(&["a"]);
    app.workspaces[0].trajectory = Some(doc_of(vec![task("m")], Vec::new(), Vec::new()));
    app.increment_regen_event_count("u0");
    app.workspaces[0].regen.last_regen_at = Some(at(100));
    assert!(app.workspaces_due_for_regen(at(399)).is_empty());
    assert_eq!(app.workspaces_due_for_regen(at(400)), strings(&["u0"]));
    app.mark_regen_in_flight("u0");
    assert!(app.workspaces_due_for_regen(at(400)).is_empty());
}

#[test]
fn a_regeneration_starts_from_the_latest_files() {
    let mut app = app_of(&["a"]);
    app.workspaces[0].surfaces = vec![surface("s", "surface:1", SurfaceKind::Codex)];
    app.workspaces[0].session = Some(session_file("/1.md", Some("u0"), &["did x"]));
    let files = || RegenFiles {
        markdown: "## Mission".to_string(),
        events: (0..40).map(|i| format!("e{i}")).collect(),
        inputs: Vec::new(),
        surfaces: Vec::new(),
        user_ask: Some("ask".to_string()),
    };
    assert!(app.build_regen_inputs("u0", files()).is_none());
    app.workspaces[0].trajectory = Some(doc_of(vec![task("m")], Vec::new(), Vec::new()));
    let inputs = app.build_regen_inputs("u0", files()).unwrap();
    assert_eq!(inputs.workspace_name, "a");
    assert_eq!(inputs.current_trajectory, "## Mission");
    assert_eq!(inputs.recent_events.len(), 20);
    assert_eq!(inputs.recent_events[0], "e20");
    assert_eq!(inputs.recent_events[19], "e39");
    assert_eq!(inputs.user_ask.as_deref(), Some("ask"));
    assert_eq!(inputs.session_bullets, strings(&["did x"]));
    assert_eq!(inputs.cmux_surface_order, strings(&["s"]));
    assert!(app.build_regen_inputs("nobody", files()).is_none());
}

#[test]
fn learning_collects_everything_about_a_workspace() {
    let mut app = app_of(&["a"]);
    app.workspaces[0].surfaces = vec![surface("s", "surface:1", SurfaceKind::Codex)];
    let files = || LearningFiles {
        project: None,
        trajectory: Some("## Mission".to_string()),
        histories: vec![
            file("trajectory-2", "md", Some("second")),
            file("trajectory-1", "md", Some("first")),
            file("notes", "md", Some("other")),
        ],
        inputs: vec![file("1", "txt", Some("why")), file("1", "md", Some("other"))],
        events: Some("{}".to_string()),
        surfaces: vec![
            file("s1", "log", Some("$ ls")),
            file("s1", "summary", Some(" listed ")),
            file("s2", "summary", Some("  ")),
        ],
        sessions: strings(&["a session"]),
    };
    let inputs = app.build_learning_inputs("u0", files());
    assert_eq!(inputs.workspace_uuid, "u0");
    assert_eq!(inputs.workspace_name, "a");
    assert_eq!(inputs.project, "a");
    assert_eq!(inputs.duration, "unknown");
    assert_eq!(inputs.surfaces_summary, strings(&["s"]));
    assert_eq!(inputs.final_trajectory, "## Mission");
    assert_eq!(inputs.history_snapshots, strings(&["first", "second"]));
    assert_eq!(inputs.inputs, strings(&["why"]));
    assert_eq!(inputs.events_jsonl, "{}");
    assert_eq!(inputs.session_history_files, strings(&["a session"]));
    assert_eq!(inputs.shell_logs, strings(&["$ ls"]));
    assert_eq!(inputs.surface_summaries, strings(&["listed"]));
    assert_eq!(app.build_learning_inputs("gone", files()).workspace_name, "gone");
}

#[test]
fn a_workspace_without_surfaces_is_dismissed_after_the_grace_period() {
    let mut app = app_of(&["a"]);
    let grace = 60 * 1_000_000_000;
    app.set_open_surfaces("u0", 2, at(0));
    app.set_open_surfaces("u0", 0, at(10));
    app.set_open_surfaces("u0", 0, at(40));
    assert!(app.workspaces_ready_for_dismissal(grace, at(69)).is_empty());
    assert_eq!(app.workspaces_ready_for_dismissal(grace, at(70)), strings(&["u0"]));
    app.set_open_surfaces("u0", 1, at(71));
    assert!(app.workspaces_ready_for_dismissal(grace, at(200)).is_empty());
    app.start_immediate_dismissal("u0", at(100_000));
    assert_eq!(app.workspaces_ready_for_dismissal(grace, at(100_000)), strings(&["u0"]));
    app.mark_dismissing("u0");
    assert!(app.workspaces_ready_for_dismissal(grace, at(100_000)).is_empty());
    app.drop_dismissed_workspace("u0");
    assert!(app.workspaces.is_empty());
}

// ---------------------------------------------------------------------------
// What is shown
// ---------------------------------------------------------------------------

#[test]
fn the_footer_lists_the_keys_of_the_focus() {
    assert_eq!(
        footer_line(Focus::Sidebar).content(),
        " j/k  navigate  ·   l/⏎  open detail  ·   ⏎  switch ws  ·   :  cmd  ·   s  rescreen  ·   \
         r  summarize  ·   ^r  reload  ·   n  notes  ·   q  quit"
    );
    assert!(footer_line(Focus::Detail).content().contains(" h/esc  back"));
}

#[test]
fn the_command_bar_shows_cursor_suffix_and_status() {
    let names = CommandTable { names: strings(&["summarize"]) };
    let mut cl = CommandLine::new();
    for c in "sum".chars() {
        cl.insert_char(c);
    }
    cl.status = Some(StatusLine::Failed("no match".to_string()));
    assert_eq!(command_line(&cl, &names).content(), ":sum marize    ✗ no match");
    cl.cursor_left();
    cl.status = Some(StatusLine::Done("ok".to_string()));
    let line = command_line(&cl, &names);
    assert_eq!(line.spans[1].text, "su");
    assert_eq!(line.spans[2].text, "m");
    assert!(line.spans[2].style.reversed);
    assert_eq!(line.spans[3].text, "");
    assert!(line.content().ends_with("✓ ok"));
}

#[test]
fn a_workspace_without_a_document_shows_an_overview() {
    let mut ws = workspace_state("u", "workspace:1", "ws");
    ws.screen_insights.user_prompt = Some("fix it".to_string());
    ws.screen_insights.tasks_done = 1;
    ws.screen_insights.tasks_total = 3;
    ws.screen_insights.pending_task = Some("next".to_string());
    ws.session = Some(session_file("/1.md", Some("u"), &["did x"]));
    ws.session.as_mut().unwrap().next_steps = strings(&["[x] done", "todo"]);
    ws.screen_preview = Some("a\nb\nc\n".to_string());
    let content =
        detail_content(Some(&ws), &agents(), 0, &RenderHints::default(), 80, 20, 0);
    let DetailContent::Lines(lines) = content else { panic!("no overview") };
    let shown = texts(&lines);
    assert!(shown[0].starts_with(" ws "));
    assert!(shown.contains(&"  › fix it".to_string()));
    assert!(shown.contains(&"  Tasks: 1/3 ✔  — next".to_string()));
    assert!(shown.contains(&"  (no notes yet)".to_string()));
    assert!(shown.contains(&"  - did x".to_string()));
    let done = lines.iter().find(|l| l.content() == "  [x] done").unwrap();
    assert_eq!(done.spans[0].style.fg, Some(Color::DarkGray));
    let todo = lines.iter().find(|l| l.content() == "  todo").unwrap();
    assert_eq!(todo.spans[0].style.fg, Some(Color::Yellow));
    assert_eq!(shown.last().unwrap(), "c");
    assert!(matches!(
        detail_content(None, &agents(), 0, &RenderHints::default(), 80, 20, 0),
        DetailContent::Unselected
    ));
    ws.trajectory = Some(doc_of(vec![task("m")], Vec::new(), Vec::new()));
    assert!(matches!(
        detail_content(Some(&ws), &agents(), 0, &RenderHints::default(), 80, 20, 0),
        DetailContent::Trajectory(_)
    ));
}

#[test]
fn each_status_has_its_color() {
    assert_eq!(status_color("active").bg, Some(Color::Green));
    assert_eq!(status_color("idle").bg, Some(Color::Yellow));
    assert_eq!(status_color("waiting").bg, Some(Color::Red));
    assert_eq!(status_color("done").bg, Some(Color::DarkGray));
    assert_eq!(status_color("?").fg, Some(Color::DarkGray));
}

#[test]
fn titles_tell_host_and_directory() {
    assert_eq!(dir_in_title("blin@host:~/Projects").as_deref(), Some("~/Projects"));
    assert_eq!(dir_in_title("host:/srv").as_deref(), Some("/srv"));
    assert_eq!(dir_in_title("~/Projects").as_deref(), Some("~/Projects"));
    assert_eq!(dir_in_title("…/deep").as_deref(), Some("…/deep"));
    assert_eq!(dir_in_title("codex"), None);
    assert_eq!(host_in_title("blin@blin-labs:~").as_deref(), Some("blin-labs"));
    assert_eq!(host_in_title("blin@mbp-2:~"), None);
    assert_eq!(host_in_title("blin@localhost:~"), None);
    assert_eq!(host_in_title("codex"), None);
}

#[test]
fn surfaces_tell_agent_directory_and_host() {
    let mut ws = workspace_state("u", "workspace:1", "ws");
    ws.surfaces = vec![
        surface("blin@blin-labs:~/Work", "surface:1", SurfaceKind::Shell),
        surface("My CODEX pane", "surface:2", SurfaceKind::Shell),
    ];
    assert_eq!(ws.agent_name(&agents()), "codex");
    assert_eq!(ws.working_dir(&agents()), "~/Work");
    assert_eq!(ws.host_name(), "blin-labs");
    assert!(ws.turn_contract(&agents()).is_none());
}

#[test]
fn transcripts_are_summarized_only_with_the_detail_pane_open() {
    let mut app = app_of(&["a"]);
    let mut agent = surface("s", "surface:1", SurfaceKind::Codex);
    agent.uuid = Some("id-1".to_string());
    let unbound = surface("t", "surface:2", SurfaceKind::Codex);
    let mut shell = surface("u", "surface:3", SurfaceKind::Shell);
    shell.uuid = Some("id-1".to_string());
    app.workspaces[0].surfaces = vec![agent, unbound, shell];
    let kinds = vec![SurfaceKind::Codex, SurfaceKind::Codex, SurfaceKind::Shell];
    let bound = table(vec![(
        "id-1",
        BoundTranscript { agent: SurfaceKind::Codex, path: Some("/t.jsonl".to_string()) },
    )]);
    assert!(app.overall_summary_targets(&kinds, &bound).is_empty());
    app.focus = Focus::Detail;
    assert_eq!(
        app.overall_summary_targets(&kinds, &bound),
        vec![(SurfaceKind::Codex, "/t.jsonl".to_string())]
    );
}

#[test]
fn sessions_without_an_active_state_are_looked_up() {
    let mut app = app_of(&["a"]);
    for id in ["s-1", "s-2"] {
        app.handle_agent_event(&AgentEvent {
            session_id: id.to_string(),
            workspace_id: "u0".to_string(),
            event_name: "e".to_string(),
        });
    }
    let state = MuxSessionState {
        session_id: "s-1".to_string(),
        agent: "codex".to_string(),
        updated_at: 1,
        last_event: "e".to_string(),
        working: true,
        ended_turn: false,
        contract: None,
    };
    assert_eq!(app.sessions_without_state(&vec![state]), strings(&["s-2"]));
}

#[test]
fn a_cursor_outside_of_the_document_is_told() {
    let mut app = app_of(&["a"]);
    app.focus = Focus::Detail;
    let down = KeyEvent { code: KeyCode::Down, modifiers: KeyModifiers::Plain };
    assert!(app.accepts_key(down));
    app.workspaces[0].trajectory = Some(doc_of(vec![task("m")], Vec::new(), Vec::new()));
    assert!(app.accepts_key(down));
    app.workspaces[0].edit_state =
        Some(TrajectoryEditState { cursor_section: 9, ..Default::default() });
    assert!(!app.accepts_key(down));
}

#[test]
fn too_many_tasks_cannot_be_counted() {
    assert!(tasks_countable("+65535 completed\n"));
    assert!(!tasks_countable("+65535 completed\n✔ one more\n"));
}

#[test]
fn a_changed_document_is_taken_unless_it_is_being_written() {
    let mut app = app_of(&["a"]);
    app.apply_trajectory_update("u0", Some(doc_of(vec![task("m")], Vec::new(), Vec::new())));
    let mission = |app: &App| {
        app.workspaces[0].trajectory.as_ref().unwrap().rows(SECTION_MISSION)[0].text.clone()
    };
    assert_eq!(mission(&app), "m");
    app.workspaces[0].edit_state = Some(TrajectoryEditState {
        mode: EditMode::Insert { focus: InsertFocus::Item },
        ..Default::default()
    });
    app.apply_trajectory_update("u0", Some(doc_of(vec![task("n")], Vec::new(), Vec::new())));
    assert_eq!(mission(&app), "m");
}

#[test]
fn only_a_focused_pane_edits_the_document() {
    let mut app = app_of(&["a"]);
    app.workspaces[0].trajectory = Some(doc_of(vec![task("m")], Vec::new(), vec![task("t")]));
    app.workspaces[0].edit_state =
        Some(TrajectoryEditState { cursor_section: 2, ..Default::default() });
    let route = PeekRoute { effective: SurfaceKind::Unknown, session_path: None };
    let space = KeyEvent { code: KeyCode::Char(' '), modifiers: KeyModifiers::Plain };
    let checked =
        |app: &App| app.workspaces[0].trajectory.as_ref().unwrap().sections[2].items[0].checked;
    assert!(app.handle_trajectory_key(space, at(0), &route).is_empty());
    assert_eq!(checked(&app), Some(false));
    app.focus = Focus::Detail;
    assert_eq!(app.handle_trajectory_key(space, at(0), &route).len(), 1);
    assert_eq!(checked(&app), Some(true));
}

#[test]
fn a_round_of_steps_visits_every_workspace() {
    let mut app = app_of(&["a", "b", "c"]);
    app.selected = 1;
    let mut visited = Vec::new();
    for _ in 0..3 {
        app.detail_scroll = 7;
        app.next();
        assert_eq!(app.detail_scroll, 0);
        visited.push(app.selected);
    }
    assert_eq!(visited, vec![2, 0, 1]);
    app.previous();
    app.previous();
    assert_eq!(app.selected, 2);
    app.selected = usize::MAX;
    app.next();
    assert!(app.selected < 3);
}

#[test]
fn a_forced_regeneration_stays_due_after_an_event() {
    let mut app = app_of(&["a"]);
    app.workspaces[0].trajectory = Some(doc_of(vec![task("m")], Vec::new(), Vec::new()));
    app.force_regen_selected_workspace();
    app.increment_regen_event_count("u0");
    assert_eq!(app.workspaces[0].regen.events_since_last_regen, u32::MAX);
    assert_eq!(app.workspaces_due_for_regen(at(0)), strings(&["u0"]));
}

#[test]
fn intents_of_closed_surfaces_are_forgotten() {
    let mut app = app_of(&["a", "b"]);
    app.workspaces[1].surfaces.push(SurfaceInfo {
        title: "remote".to_string(),
        ref_id: "surface:9".to_string(),
        uuid: None,
        tty: None,
        kind: SurfaceKind::Remote,
        focused: false,
    });
    for surface_ref in ["surface:8", "surface:9"] {
        app.apply_remote_intent(RemoteIntentUpdate {
            surface_ref: surface_ref.to_string(),
            intent: ConversationIntent {
                overall_goal: Some(surface_ref.to_string()),
                latest_ask: None,
            },
        });
    }
    app.retain_remote_intents();
    assert_eq!(app.remote_intents.entries.len(), 1);
    let kept = app.remote_intents.get("surface:9").unwrap();
    assert_eq!(kept.overall_goal.as_deref(), Some("surface:9"));
}

#[test]
fn prefixes_in_use_are_listed_once() {
    let mut app = app_of(&["a", "b"]);
    app.workspaces[0].trajectory = Some(doc_of(vec![task("m")], Vec::new(), Vec::new()));
    let mut used = Vec::new();
    carry_prefix(&mut used, &app.workspaces[0], Some("MSC"));
    carry_prefix(&mut used, &app.workspaces[0], Some("MSC"));
    carry_prefix(&mut used, &app.workspaces[0], None);
    assert_eq!(used, strings(&["MSC"]));
    carry_prefix(&mut used, &app.workspaces[1], Some("OTHER"));
    assert_eq!(used, strings(&["MSC"]));
    record_prefix(&mut used, "ABC");
    assert_eq!(used, strings(&["MSC", "ABC"]));
}

#[test]
fn a_held_key_is_accepted_on_an_empty_task_section() {
    let mut app = app_of(&["a"]);
    app.focus = Focus::Detail;
    app.workspaces[0].trajectory = Some(doc_of(vec![task("m")], Vec::new(), Vec::new()));
    app.workspaces[0].edit_state =
        Some(TrajectoryEditState { cursor_section: 2, cursor_item: 3, ..Default::default() });
    let up = KeyEvent { code: KeyCode::Char('K'), modifiers: KeyModifiers::Plain };
    assert!(!app.accepts_key(up));
    app.workspaces[0].linear = Some(WorkspaceLinearView {
        project_id: "p".to_string(),
        required_labels: Vec::new(),
        feature_name: None,
        issues: Vec::new(),
        warning: None,
    });
    assert!(app.accepts_key(up));
    let route = PeekRoute { effective: SurfaceKind::Unknown, session_path: None };
    assert!(app.handle_trajectory_key(up, at(0), &route).is_empty());
}
