//! The rows of the workspace list.
use mission_control::agents::AgentTable;
use mission_control::assoc::Assoc;
use mission_control::screen::ScreenInsights;
use mission_control::sidebar::{sidebar_rows, spinner_frame, status_indicator, workspace_accent_color};
use mission_control::style::{Color, Line, Span};
use mission_control::workspace::{
    DismissalState, RegenSchedulerState, SessionFile, SessionFrontmatter, Workspace,
    WorkspaceState,
};

fn workspace_state(uuid: &str, ref_id: &str, name: &str) -> WorkspaceState {
    WorkspaceState {
        workspace: Workspace {
            window_id: Some("window-test".to_string()),
            window_ref: Some("window:1".to_string()),
            ref_id: ref_id.to_string(),
            uuid: uuid.to_string(),
            name: name.to_string(),
            description: None,
            current_directory: None,
            custom_color: None,
        },
        session: None,
        surfaces: Vec::new(),
        remote_surfaces: Assoc::new(),
        screen_preview: None,
        screen_insights: ScreenInsights::default(),
        tool_call_count: 0,
        notes: None,
        mux_status: None,
        classification: None,
        loading: false,
        summary: None,
        beads: None,
        linear: None,
        linear_open_pending: None,
        summarizing: false,
        trajectory: None,
        edit_state: None,
        missions_pending: false,
        peek_state: None,
        peek_yield_pending: false,
        regen: RegenSchedulerState {
            last_regen_at: None,
            events_since_last_regen: 0,
            regen_in_flight: false,
        },
        dismissal: DismissalState { open_surfaces: 0, grace_started_at: None, dismissing: false },
        dispatch_modal: None,
        dispatch_pending_outcome: None,
        dispatch_error: None,
    }
}

fn test_workspace_state(name: &str, custom_color: Option<&str>) -> WorkspaceState {
    let mut ws = workspace_state("workspace-1", "workspace:1", name);
    ws.workspace.description = Some("short description".to_string());
    ws.workspace.custom_color = custom_color.map(str::to_string);
    ws
}

fn no_agents() -> AgentTable {
    AgentTable { agents: Vec::new() }
}

fn rows(workspaces: &Vec<WorkspaceState>, selected: usize) -> Vec<Line> {
    sidebar_rows(workspaces, &no_agents(), selected, 30, 0)
}

fn row_with(lines: &[Line], name: &str) -> usize {
    lines.iter().position(|l| l.content().contains(name)).expect("the name should be shown")
}

fn span_with<'a>(line: &'a Line, name: &str) -> &'a Span {
    line.spans.iter().find(|s| s.text.contains(name)).expect("the name should have a span")
}

#[test]
fn each_workspace_is_exactly_one_row() {
    let workspaces = vec![
        test_workspace_state("alpha", Some("#C0392B")),
        test_workspace_state("beta", Some("#006B6B")),
        test_workspace_state("gamma", Some("#4A5C18")),
    ];
    let lines = rows(&workspaces, 0);
    assert_eq!(lines.len(), 3);
    let alpha_y = row_with(&lines, "alpha");
    let beta_y = row_with(&lines, "beta");
    let gamma_y = row_with(&lines, "gamma");
    assert_eq!(beta_y - alpha_y, 1);
    assert_eq!(gamma_y - beta_y, 1);
}

#[test]
fn workspace_row_fills_with_accent_bg() {
    let workspaces = vec![test_workspace_state("alpha", Some("#C0392B"))];
    let lines = rows(&workspaces, 0);
    assert_eq!(span_with(&lines[0], "alpha").style.bg, Some(Color::Rgb(0xC0, 0x39, 0x2B)));
    assert_eq!(lines[0].content().chars().count(), 28);
}

#[test]
fn selected_workspace_shows_marker_and_underline() {
    let workspaces = vec![
        test_workspace_state("alpha", Some("#C0392B")),
        test_workspace_state("beta", Some("#006B6B")),
    ];
    let lines = rows(&workspaces, 1);
    let beta = &lines[row_with(&lines, "beta")];
    assert!(beta.content().contains('▶'));
    assert!(span_with(beta, "beta").style.underlined);
    let alpha = &lines[row_with(&lines, "alpha")];
    assert!(!alpha.content().contains('▶'));
    assert!(!span_with(alpha, "alpha").style.underlined);
}

#[test]
fn workspace_without_custom_color_uses_dark_gray_bg() {
    let workspaces = vec![test_workspace_state("plain", None)];
    let lines = rows(&workspaces, 0);
    assert_eq!(span_with(&lines[0], "plain").style.bg, Some(Color::DarkGray));
}

#[test]
fn the_host_of_another_machine_is_shown() {
    let mut ws = test_workspace_state("alpha", None);
    ws.session = Some(SessionFile {
        path: "/s.md".to_string(),
        frontmatter: SessionFrontmatter {
            workspace_id: None,
            agent: None,
            host: Some("devbox".to_string()),
            topic: None,
        },
        trajectory: None,
        bullets: Vec::new(),
        next_steps: Vec::new(),
    });
    let lines = rows(&vec![ws], 0);
    assert!(lines[0].content().contains("alpha [devbox]"));
    assert_eq!(lines[0].content().chars().count(), 28);
}

#[test]
fn a_long_name_is_cut_to_the_row() {
    let workspaces = vec![test_workspace_state("abcdefghijklmnopqrstuvwxyz0123456789", None)];
    let lines = rows(&workspaces, 0);
    assert_eq!(lines[0].content(), "▶ ○ abcdefghijklmnopqrstuvw…");
}

#[test]
fn the_spinner_turns_every_eighty_milliseconds() {
    assert_eq!(spinner_frame(0), '⠋');
    assert_eq!(spinner_frame(79), '⠋');
    assert_eq!(spinner_frame(80), '⠙');
    assert_eq!(spinner_frame(799), '⠏');
    assert_eq!(spinner_frame(800), '⠋');
    let mut ws = test_workspace_state("alpha", None);
    assert_eq!(status_indicator(&ws, &no_agents()), ('○', Color::DarkGray));
    ws.loading = true;
    let lines = sidebar_rows(&vec![ws], &no_agents(), 0, 30, 80);
    assert!(lines[0].content().contains('⠙'));
}

fn accent(setting: &str) -> Option<Color> {
    workspace_accent_color(&Some(setting.to_string()))
}

#[test]
fn only_six_hexadecimal_digits_are_a_color() {
    assert_eq!(accent("#C0392B"), Some(Color::Rgb(0xC0, 0x39, 0x2B)));
    assert_eq!(accent("#c0392b"), Some(Color::Rgb(0xC0, 0x39, 0x2B)));
    assert_eq!(accent("C0392B"), None);
    assert_eq!(accent("#C0392"), None);
    assert_eq!(accent("#C0392G"), None);
    assert_eq!(workspace_accent_color(&None), None);
}
