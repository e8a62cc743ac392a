//! Reading an agent's screen.
use mission_control::agents::{known_agents, AgentTable};
use mission_control::screen::{extract_duration, parse_screen_insights};
use mission_control::surface::SurfaceKind;
use mission_control::text::{chars_of, is_space_char, lines_of, trim_str, words_of};

fn agents() -> AgentTable {
    known_agents("agent-c", "Agent C")
}

#[test]
fn a_working_screen_tells_ask_activity_and_place() {
    let screen = "› fix the build\n  and the tests\n\n⏺ Looking at it\n\
                  ✻ Puzzling… (2m 28s · ↑ 2.5k tokens)\n\n\
                  ────────\n❯ \n────────\n  gpt-5 high · ~/Projects/x\n";
    let seen = parse_screen_insights(screen, &agents());
    assert_eq!(seen.user_prompt.as_deref(), Some("fix the build and the tests"));
    assert_eq!(seen.activity.as_deref(), Some("✻ Puzzling… (2m 28s · ↑ 2.5k tokens)"));
    assert_eq!(seen.duration.as_deref(), Some("2m 28s"));
    assert_eq!(seen.working_dir.as_deref(), Some("~/Projects/x"));
    assert_eq!(seen.agent.as_deref(), Some("codex"));
    assert_eq!(seen.tasks_total, 0);
    assert_eq!(seen.pending_task, None);
}

#[test]
fn the_input_area_wins_over_the_conversation() {
    let screen = "› earlier ask\n\n────────\n❯ next ask\n────────\n⏵⏵ status\n";
    let seen = parse_screen_insights(screen, &agents());
    assert_eq!(seen.user_prompt.as_deref(), Some("next ask"));
}

#[test]
fn queued_asks_below_the_activity_are_left_out() {
    let screen = "› first ask\n\n✻ Puzzling… (5s)\n› queued ask\n\n────────\n❯\n────────\n";
    let seen = parse_screen_insights(screen, &agents());
    assert_eq!(seen.user_prompt.as_deref(), Some("first ask"));
}

#[test]
fn tasks_are_counted() {
    let screen = "  ✔ one\n  ◼ two\n  ◼ three\n  … +4 completed\n";
    let seen = parse_screen_insights(screen, &agents());
    assert_eq!(seen.tasks_done, 5);
    assert_eq!(seen.tasks_total, 7);
    assert_eq!(seen.pending_task.as_deref(), Some("two"));
}

#[test]
fn a_finished_turn_shows_how_long_it_took() {
    let seen = parse_screen_insights("✻ Cooked for 11m 29s\n", &agents());
    assert_eq!(seen.activity.as_deref(), Some("✻ Cooked for 11m 29s"));
    assert_eq!(seen.duration.as_deref(), Some("11m 29s"));
    let seen = parse_screen_insights("─ Worked for 6m 00s ─────\n", &agents());
    assert_eq!(seen.activity, None);
    assert_eq!(seen.duration.as_deref(), Some("6m 00s"));
    let seen = parse_screen_insights("• Working (54s · esc to interrupt)\n", &agents());
    assert_eq!(seen.activity.as_deref(), Some("• Working (54s · esc to interrupt)"));
    assert_eq!(seen.duration.as_deref(), Some("54s"));
}

#[test]
fn collapsed_output_is_no_activity() {
    let seen = parse_screen_insights("… +301 lines (ctrl+o to expand)\n", &agents());
    assert_eq!(seen.activity, None);
}

#[test]
fn agents_are_recognized_in_any_case() {
    let agent = |screen: &str| parse_screen_insights(screen, &agents()).agent;
    assert_eq!(agent("1:AGENT-C*").as_deref(), Some("agent-c"));
    assert_eq!(agent("\"Codex").as_deref(), Some("codex"));
    assert_eq!(agent("model GPT-5").as_deref(), Some("codex"));
    assert_eq!(agent("0:opencode").as_deref(), Some("opencode"));
    assert_eq!(agent("welcome to Agent-C Code").as_deref(), Some("agent-c"));
    assert_eq!(agent("codex"), None);
    assert_eq!(agent("1:\u{212A}codex"), None);
    assert_eq!(agent(""), None);
}

#[test]
fn durations_are_found_after_for_or_in_brackets() {
    assert_eq!(extract_duration("Worked for 6m 00s ──").as_deref(), Some("6m 00s"));
    assert_eq!(extract_duration("x (18m 31s · y)").as_deref(), Some("18m 31s"));
    assert_eq!(extract_duration("x (18m 31s"), None);
    assert_eq!(extract_duration("for ever"), None);
    assert_eq!(extract_duration("nothing"), None);
}

#[test]
fn an_empty_screen_tells_nothing() {
    let seen = parse_screen_insights("", &agents());
    assert_eq!(seen.user_prompt, None);
    assert_eq!(seen.activity, None);
    assert_eq!(seen.duration, None);
    assert_eq!(seen.working_dir, None);
    assert_eq!(seen.agent, None);
    assert_eq!(seen.tasks_done, 0);
}

#[test]
fn spaces_are_the_white_space_characters() {
    for code in 0..=0x10FFFF_u32 {
        if let Some(c) = char::from_u32(code) {
            assert_eq!(is_space_char(c), c.is_whitespace());
        }
    }
}

#[test]
fn texts_split_as_usual() {
    for text in ["", "\n", "a\n", "a\r\nb", "a\r", "\r\n\r\n", " a \u{2003} b\t", "a\n\nb\n"] {
        let ours: Vec<String> =
            lines_of(&chars_of(text)).iter().map(|l| l.iter().collect()).collect();
        let usual: Vec<String> = text.lines().map(|l| l.to_string()).collect();
        assert_eq!(ours, usual);
        let ours: Vec<String> =
            words_of(&chars_of(text)).iter().map(|l| l.iter().collect()).collect();
        let usual: Vec<String> = text.split_whitespace().map(|l| l.to_string()).collect();
        assert_eq!(ours, usual);
        assert_eq!(trim_str(text), text.trim());
    }
}

#[test]
fn the_known_agents_have_names_titles_and_marks() {
    let table = agents();
    let seen: Vec<(SurfaceKind, &str, &str, Vec<&str>)> = table
        .agents
        .iter()
        .map(|a| {
            let marks = a.marks.iter().map(|m| m.as_str()).collect();
            (a.kind, a.name.as_str(), a.title.as_str(), marks)
        })
        .collect();
    assert_eq!(
        seen,
        vec![
            (SurfaceKind::Claude, "agent-c", "Agent C", vec!["agent-c code"]),
            (SurfaceKind::Codex, "codex", "Codex", vec!["gpt-"]),
            (SurfaceKind::OtherAgent, "opencode", "opencode", vec![]),
        ]
    );
    assert_eq!(table.kind_label(SurfaceKind::Claude), "agent-c");
    assert_eq!(table.kind_label(SurfaceKind::Codex), "codex");
    assert_eq!(table.agent_in_title("opencode on codex"), Some("codex"));
    assert_eq!(table.agent_in_title("my opencode"), Some("opencode"));
}
