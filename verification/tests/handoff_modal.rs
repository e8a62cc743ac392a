//! Handing a session over to another machine.
use mission_control::agents::{known_agents, AgentTable};
use mission_control::handoff::{
    HandoffFailure, HandoffLocator, HandoffSourceContext, HandoffSourceObservation, HandoffStage,
    HandoffSuccess, HandoffUpdateKind, RemoteSessionLocator,
};
use mission_control::handoff_modal::{
    handoff_profiles, lines, modal_height, HandoffModal, HandoffOutcome, HandoffView,
};
use mission_control::keys::{KeyCode, KeyEvent, KeyModifiers};

fn key(code: KeyCode) -> KeyEvent {
    KeyEvent { code, modifiers: KeyModifiers::Plain }
}

fn known() -> AgentTable {
    known_agents("agent-c", "Agent C")
}

fn source() -> HandoffSourceContext {
    HandoffSourceContext {
        workspace_uuid: "workspace-1".to_string(),
        surface_uuid: "11111111-1111-4111-8111-111111111111".to_string(),
        locator: RemoteSessionLocator {
            schema_version: 1,
            device_id: "ref".to_string(),
            profile_scope: "root".to_string(),
            session_id: "s-source".to_string(),
            transport_binding_id: None,
        },
        agent: "agent-c".to_string(),
        project: "mission-control".to_string(),
        goal: "Continue safely".to_string(),
        history: "2026-07-15-20-handoff.md".to_string(),
        conversation_id: None,
        parent_handoff_id: None,
        validation: "not_run".to_string(),
        observation: HandoffSourceObservation {
            turn_count: 1,
            updated_at: "2026-07-15T20:01:00-07:00".to_string(),
            last_turn_end_at: Some("2026-07-15T20:01:00-07:00".to_string()),
        },
    }
}

fn locator(device: &str, session: &str) -> HandoffLocator {
    HandoffLocator {
        device_id: device.to_string(),
        profile_scope: "root".to_string(),
        session_id: session.to_string(),
    }
}

fn text(modal: &HandoffModal) -> String {
    lines(modal).iter().map(|line| line.content()).collect::<Vec<_>>().join("\n")
}

#[test]
fn peers_are_sorted_and_source_agent_is_default_profile() {
    let modal = HandoffModal::new(
        source(),
        "agent-c source".to_string(),
        vec!["zeta".to_string(), "alpha".to_string(), "alpha".to_string()], &known());
    assert_eq!(modal.peers, vec!["alpha", "zeta"]);
    assert_eq!(modal.selected_profile(), Some("agent-c"));
}

#[test]
fn pick_then_confirm_produces_exact_plan() {
    let mut modal = HandoffModal::new(source(), "agent-c source".to_string(), vec!["devbox".to_string()], &known());
    assert_eq!(
        modal.handle_key(key(KeyCode::Enter)),
        HandoffOutcome::Handled
    );
    assert!(matches!(modal.view, HandoffView::Confirm));
    let HandoffOutcome::Start(plan) = modal.handle_key(key(KeyCode::Enter)) else {
        panic!("confirmation did not start")
    };
    assert_eq!(plan.source.locator.session_id, "s-source");
    assert_eq!(plan.target.peer_id, "devbox");
    assert_eq!(plan.target.profile, "agent-c");
}

#[test]
fn running_absorbs_escape_and_stale_generation_is_ignored() {
    let mut modal = HandoffModal::new(source(), "source".to_string(), vec!["devbox".to_string()], &known());
    let plan = modal.selected_plan().unwrap();
    modal.mark_running(9, plan);
    assert_eq!(modal.handle_key(key(KeyCode::Esc)), HandoffOutcome::Handled);
    modal.apply_update(8, HandoffUpdateKind::Progress(HandoffStage::Launching));
    assert!(matches!(
        modal.view,
        HandoffView::Running(HandoffStage::Preparing)
    ));
}

#[test]
fn duplicate_live_failure_cannot_blindly_retry() {
    let mut modal = HandoffModal::new(source(), "source".to_string(), vec!["devbox".to_string()], &known());
    let plan = modal.selected_plan().unwrap();
    modal.mark_running(3, plan);
    modal.apply_update(
        3,
        HandoffUpdateKind::Finished(Err(HandoffFailure {
            message: "retire failed".to_string(),
            handoff_id: Some("handoff-1".to_string()),
            source_locator: HandoffLocator {
                device_id: "ref".to_string(),
                profile_scope: "root".to_string(),
                session_id: "s-source".to_string(),
            },
            target_locator: Some(HandoffLocator {
                device_id: "devbox".to_string(),
                profile_scope: "root".to_string(),
                session_id: "s-target".to_string(),
            }),
            target_uncertain: false,
            duplicate_live: true,
            retryable: false,
        })),
    );
    assert_eq!(
        modal.handle_key(key(KeyCode::Char('r'))),
        HandoffOutcome::Handled
    );
}

#[test]
fn uncertain_target_shows_reconciliation_id_and_cannot_retry() {
    let mut modal = HandoffModal::new(source(), "source".to_string(), vec!["devbox".to_string()], &known());
    let plan = modal.selected_plan().unwrap();
    modal.mark_running(4, plan);
    modal.apply_update(
        4,
        HandoffUpdateKind::Finished(Err(HandoffFailure {
            message: "arcmux handoff command timed out".to_string(),
            handoff_id: Some("handoff-uncertain".to_string()),
            source_locator: HandoffLocator {
                device_id: "ref".to_string(),
                profile_scope: "root".to_string(),
                session_id: "s-source".to_string(),
            },
            target_locator: None,
            target_uncertain: true,
            duplicate_live: true,
            retryable: false,
        })),
    );

    let rendered = text(&modal);
    assert!(rendered.contains("arcmux handoff show handoff-uncertain"));
    assert!(rendered.contains("target existence is uncertain"));
    assert_eq!(
        modal.handle_key(key(KeyCode::Char('r'))),
        HandoffOutcome::Handled
    );
}

#[test]
fn raw_surface_unavailable_message_is_terminal() {
    let mut modal = HandoffModal::unavailable(
        "workspace-1".to_string(),
        "raw codex".to_string(),
        "not arcmux-supervised".to_string(),
    );
    assert!(matches!(modal.view, HandoffView::Unavailable(_)));
    assert_eq!(
        modal.handle_key(key(KeyCode::Enter)),
        HandoffOutcome::Cancel
    );
}

#[test]
fn steps_through_peers_cancel_out() {
    let mut modal = HandoffModal::new(
        source(),
        "source".to_string(),
        vec!["b".to_string(), "a".to_string(), "c".to_string()],
        &known(),
    );
    assert_eq!(modal.selected_peer(), Some("a"));
    modal.handle_key(key(KeyCode::Down));
    assert_eq!(modal.selected_peer(), Some("b"));
    modal.handle_key(key(KeyCode::Up));
    modal.handle_key(key(KeyCode::Up));
    assert_eq!(modal.selected_peer(), Some("c"));
    modal.handle_key(key(KeyCode::Down));
    assert_eq!(modal.selected_peer(), Some("a"));
}

#[test]
fn an_agent_of_another_name_is_its_own_profile() {
    let mut from = source();
    from.agent = "other".to_string();
    let modal =
        HandoffModal::new(from, "source".to_string(), vec!["devbox".to_string()], &known());
    assert_eq!(modal.selected_profile(), Some("other"));
    assert!(modal.profiles.contains(&"codex".to_string()));
}

#[test]
fn a_retryable_failure_starts_the_same_plan_again() {
    let mut modal =
        HandoffModal::new(source(), "source".to_string(), vec!["devbox".to_string()], &known());
    let plan = modal.selected_plan().unwrap();
    modal.mark_running(3, plan);
    modal.apply_update(
        3,
        HandoffUpdateKind::Finished(Err(HandoffFailure {
            message: "no route".to_string(),
            handoff_id: None,
            source_locator: locator("ref", "s-source"),
            target_locator: None,
            target_uncertain: false,
            duplicate_live: false,
            retryable: true,
        })),
    );
    assert!(text(&modal).contains("no route"));
    let HandoffOutcome::Start(again) = modal.handle_key(key(KeyCode::Char('r'))) else {
        panic!("a retryable failure did not start again")
    };
    assert_eq!(again.target.peer_id, "devbox");
}

#[test]
fn progress_and_success_are_shown() {
    let mut modal =
        HandoffModal::new(source(), "source".to_string(), vec!["devbox".to_string()], &known());
    let plan = modal.selected_plan().unwrap();
    modal.mark_running(3, plan);
    modal.apply_update(3, HandoffUpdateKind::Progress(HandoffStage::Launching));
    assert_eq!(modal.view, HandoffView::Running(HandoffStage::Launching));
    modal.apply_update(
        3,
        HandoffUpdateKind::Finished(Ok(HandoffSuccess {
            source_locator: locator("ref", "s-source"),
            target_locator: locator("devbox", "s-target"),
        })),
    );
    assert!(text(&modal).contains("s-target"));
    assert!(modal_height(&modal) as usize >= lines(&modal).len());
    assert_eq!(modal.handle_key(key(KeyCode::Esc)), HandoffOutcome::Cancel);
}

#[test]
fn no_peers_leave_nothing_to_start() {
    let mut modal = HandoffModal::new(source(), "source".to_string(), Vec::new(), &known());
    assert!(modal.selected_plan().is_none());
    modal.handle_key(key(KeyCode::Enter));
    assert!(!matches!(modal.handle_key(key(KeyCode::Enter)), HandoffOutcome::Start(_)));
}

#[test]
fn an_invalidated_confirmation_is_unavailable() {
    let mut modal =
        HandoffModal::new(source(), "source".to_string(), vec!["devbox".to_string()], &known());
    modal.handle_key(key(KeyCode::Enter));
    modal.invalidate_confirmation("source moved on".to_string());
    assert!(text(&modal).contains("source moved on"));
}

#[test]
fn the_known_profiles_follow_the_sources_agent() {
    assert_eq!(handoff_profiles(&known()), vec!["codex", "agent-c", "grok"]);
    let modal = HandoffModal::new(source(), "s".to_string(), vec!["devbox".to_string()], &known());
    assert_eq!(modal.profiles, vec!["agent-c", "codex", "grok"]);
    let other = HandoffSourceContext { agent: "other".to_string(), ..source() };
    let modal = HandoffModal::new(other, "s".to_string(), vec!["devbox".to_string()], &known());
    assert_eq!(modal.profiles, vec!["other", "codex", "agent-c", "grok"]);
}
