//! Choosing where a goal goes.
use mission_control::agents::{known_agents, AgentTable};
use mission_control::dispatch_modal::{
    modal_height_for, modal_lines, modal_title, pad, DispatchModal, DispatchOption,
    DispatchOutcome, DispatchView,
};
use mission_control::keys::{KeyCode, KeyEvent, KeyModifiers};
use mission_control::surface::{new_surface_ref, SurfaceInfo, SurfaceKind};

fn key(code: KeyCode) -> KeyEvent {
    KeyEvent { code, modifiers: KeyModifiers::Plain }
}

fn surface(title: &str, ref_id: &str, tty: Option<&str>, kind: SurfaceKind) -> SurfaceInfo {
    SurfaceInfo {
        title: title.to_string(),
        ref_id: ref_id.to_string(),
        uuid: None,
        tty: tty.map(|t| t.to_string()),
        kind,
        focused: false,
    }
}

fn make_surfaces() -> Vec<SurfaceInfo> {
    vec![
        surface("agent-c", "surface:92", Some("ttys001"), SurfaceKind::Claude),
        surface("codex", "surface:93", Some("ttys002"), SurfaceKind::Codex),
        surface("shell", "surface:94", Some("ttys003"), SurfaceKind::Shell),
        surface("https://example.com", "surface:95", None, SurfaceKind::Unknown),
    ]
}

fn agents() -> AgentTable {
    known_agents("agent-c", "Agent C")
}

fn modal() -> DispatchModal {
    DispatchModal::new(
        "sprint-02".to_string(),
        "uuid-a".to_string(),
        "workspace:25".to_string(),
        &make_surfaces(),
    )
}

#[test]
fn new_filters_browsers_and_includes_new_sentinel() {
    let modal = modal();
    assert_eq!(modal.existing_count(), 3);
    assert!(matches!(
        modal.options.last(),
        Some(DispatchOption::NewSurface)
    ));
}

#[test]
fn numeric_selection_yields_select_existing_with_right_surface() {
    let mut modal = modal();
    let outcome = modal.handle_key(key(KeyCode::Char('1')));
    assert_eq!(
        outcome,
        DispatchOutcome::SelectExisting {
            surface_ref: "surface:92".into(),
            kind: SurfaceKind::Claude,
        }
    );
}

#[test]
fn numeric_selection_second_option_picks_codex() {
    let mut modal = modal();
    let outcome = modal.handle_key(key(KeyCode::Char('2')));
    assert_eq!(
        outcome,
        DispatchOutcome::SelectExisting {
            surface_ref: "surface:93".into(),
            kind: SurfaceKind::Codex,
        }
    );
}

#[test]
fn esc_cancels_in_pick_surface() {
    let mut modal = modal();
    let outcome = modal.handle_key(key(KeyCode::Esc));
    assert_eq!(outcome, DispatchOutcome::Cancel);
}

#[test]
fn n_transitions_to_pick_agent_then_c_yields_new_claude() {
    let mut modal = modal();
    assert!(matches!(modal.view, DispatchView::PickSurface { .. }));
    let outcome1 = modal.handle_key(key(KeyCode::Char('n')));
    assert_eq!(outcome1, DispatchOutcome::Handled);
    assert!(matches!(modal.view, DispatchView::PickAgent { .. }));
    let outcome2 = modal.handle_key(key(KeyCode::Char('c')));
    assert_eq!(
        outcome2,
        DispatchOutcome::NewSurface {
            kind: SurfaceKind::Claude,
        }
    );
}

#[test]
fn pick_agent_x_yields_new_codex() {
    let mut modal = modal();
    modal.handle_key(key(KeyCode::Char('n')));
    let outcome = modal.handle_key(key(KeyCode::Char('x')));
    assert_eq!(
        outcome,
        DispatchOutcome::NewSurface {
            kind: SurfaceKind::Codex,
        }
    );
}

#[test]
fn pick_agent_esc_returns_to_pick_surface_without_cancelling() {
    let mut modal = modal();
    modal.handle_key(key(KeyCode::Char('n')));
    let outcome = modal.handle_key(key(KeyCode::Esc));
    assert_eq!(outcome, DispatchOutcome::Handled);
    assert!(matches!(modal.view, DispatchView::PickSurface { .. }));
}

#[test]
fn out_of_range_digit_is_handled_silently() {
    let mut modal = modal();
    let outcome = modal.handle_key(key(KeyCode::Char('9')));
    assert_eq!(outcome, DispatchOutcome::Handled);
    assert!(matches!(modal.view, DispatchView::PickSurface { .. }));
}

#[test]
fn handle_key_clears_prior_error() {
    let mut modal = modal();
    modal.error = Some("boom".into());
    modal.handle_key(key(KeyCode::Char('q')));
    assert!(modal.error.is_none());
}

#[test]
fn every_tenth_surface_and_later_is_left_out() {
    let surfaces: Vec<SurfaceInfo> = (0..12)
        .map(|i| surface("shell", &format!("surface:{i}"), Some("tty"), SurfaceKind::Shell))
        .collect();
    let mut m = DispatchModal::new(
        "goal".to_string(),
        "u".to_string(),
        "workspace:1".to_string(),
        &surfaces,
    );
    assert_eq!(m.existing_count(), 9);
    assert_eq!(m.options.len(), 10);
    assert_eq!(
        m.handle_key(key(KeyCode::Char('9'))),
        DispatchOutcome::SelectExisting {
            surface_ref: "surface:8".to_string(),
            kind: SurfaceKind::Shell,
        }
    );
    assert_eq!(m.handle_key(key(KeyCode::Char('0'))), DispatchOutcome::Handled);
    assert_eq!(m.goal_text, "goal");
}

#[test]
fn an_empty_terminal_name_is_no_terminal() {
    let m = DispatchModal::new(
        "goal".to_string(),
        "u".to_string(),
        "workspace:1".to_string(),
        &vec![surface("shell", "surface:1", Some(""), SurfaceKind::Shell)],
    );
    assert_eq!(m.existing_count(), 0);
}

#[test]
fn the_list_shows_one_line_per_surface() {
    let m = modal();
    let text: Vec<String> = modal_lines(&m, &agents()).iter().map(|l| l.content()).collect();
    let joined = text.join("\n");
    assert!(joined.contains("surface:92"));
    assert!(joined.contains("surface:94"));
    assert!(!joined.contains("surface:95"));
    assert!(modal_title(&m).contains("sprint-02"));
    assert!(modal_height_for(&m) as usize >= text.len());
}

#[test]
fn the_agent_choice_names_both_agents() {
    let mut m = modal();
    m.handle_key(key(KeyCode::Char('n')));
    let text: Vec<String> = modal_lines(&m, &agents()).iter().map(|l| l.content()).collect();
    let joined = text.join("\n");
    assert!(joined.contains("Agent C"));
    assert!(joined.contains("Codex"));
}

#[test]
fn padding_fills_and_never_cuts() {
    assert_eq!(pad("ab", 4), "ab  ");
    assert_eq!(pad("abcd", 4), "abcd");
    assert_eq!(pad("abcde", 4), "abcde");
}

#[test]
fn cmux_new_surface_token_parser_extracts_surface_ref() {
    let stdout = "OK surface:108 pane:15 workspace:14\n";
    let token = new_surface_ref(stdout).expect("must find a surface:<N> token");
    assert_eq!(token, "surface:108");
}

#[test]
fn cmux_new_surface_parser_rejects_missing_surface_token() {
    let stdout = "OK pane:15 workspace:14\n";
    let token = new_surface_ref(stdout);
    assert!(token.is_none());
    assert!(new_surface_ref("OK surface: pane:15\n").is_none());
}

#[test]
fn browsers_take_no_digit_from_a_terminal() {
    let mut surfaces = vec![surface("https://example.com", "surface:0", None, SurfaceKind::Unknown)];
    for k in 1..=10 {
        surfaces.push(surface("shell", &format!("surface:{k}"), Some("ttys001"), SurfaceKind::Shell));
    }
    surfaces.truncate(10);
    let mut modal = DispatchModal::new(
        "goal".to_string(),
        "uuid-a".to_string(),
        "workspace:25".to_string(),
        &surfaces,
    );
    assert_eq!(modal.existing_count(), 9);
    assert_eq!(modal.options.len(), 10);
    assert_eq!(modal.options[9], DispatchOption::NewSurface);
    assert_eq!(
        modal.handle_key(key(KeyCode::Char('9'))),
        DispatchOutcome::SelectExisting {
            surface_ref: "surface:9".to_string(),
            kind: SurfaceKind::Shell
        }
    );
    surfaces.push(surface("shell", "surface:10", Some("ttys001"), SurfaceKind::Shell));
    let modal = DispatchModal::new(
        "goal".to_string(),
        "uuid-a".to_string(),
        "workspace:25".to_string(),
        &surfaces,
    );
    assert_eq!(modal.existing_count(), 9);
}
