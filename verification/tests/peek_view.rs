//! Scrolling, buffering and titling of the peek pane.
use mission_control::clock::Moment;
use mission_control::peek_view::{
    effective_offset, is_user_role, peek_title, placeholder, rebuild_agent_buffer, truncate_words,
    PeekSource, PeekState, Turn, BUFFER_MAX_LINES, PAGE_SIZE,
};

fn at(nanos: i64) -> Moment {
    Moment { nanos }
}

fn make_state() -> PeekState {
    PeekState::new(
        "workspace:1".to_string(),
        "workspace:3".to_string(),
        "workspace:3".to_string(),
        PeekSource::Shell,
    )
}

/// The buffered rows that a pane of `height` inner rows shows.
fn visible(peek: &PeekState, height: u16) -> Vec<String> {
    let start = effective_offset(peek, height) as usize;
    peek.screen_buffer.iter().skip(start).take(height as usize).cloned().collect()
}

fn turn(time: &str, role: &str, content: &str) -> Turn {
    Turn { time: time.to_string(), role: role.to_string(), content: content.to_string() }
}

#[test]
fn scroll_down_increments_offset() {
    let mut ps = make_state();
    for i in 0..50 {
        ps.screen_buffer.push(format!("line {i}"));
    }
    ps.scroll_down();
    assert_eq!(ps.scroll_offset, 3);
}

#[test]
fn scroll_up_decrements_offset() {
    let mut ps = make_state();
    for i in 0..50 {
        ps.screen_buffer.push(format!("line {i}"));
    }
    ps.scroll_offset = 10;
    ps.scroll_up();
    assert_eq!(ps.scroll_offset, 7);
}

#[test]
fn scroll_up_clamps_at_zero() {
    let mut ps = make_state();
    for i in 0..20 {
        ps.screen_buffer.push(format!("line {i}"));
    }
    ps.scroll_offset = 2;
    ps.scroll_up();
    assert_eq!(ps.scroll_offset, 0);
}

#[test]
fn go_top_resets_to_zero() {
    let mut ps = make_state();
    for i in 0..30 {
        ps.screen_buffer.push(format!("line {i}"));
    }
    ps.scroll_offset = 15;
    ps.go_top();
    assert_eq!(ps.scroll_offset, 0);
}

#[test]
fn go_bottom_goes_to_max_scroll() {
    let mut ps = make_state();
    for i in 0..30 {
        ps.screen_buffer.push(format!("line {i}"));
    }
    ps.go_bottom();
    assert_eq!(ps.scroll_offset, ps.max_scroll());
    assert_eq!(ps.scroll_offset, 29);
}

#[test]
fn ingest_screen_appends_lines() {
    let mut ps = make_state();
    ps.ingest_screen("line A\nline B\nline C\n", at(0));
    assert_eq!(ps.screen_buffer.len(), 3);
    assert_eq!(ps.screen_buffer[0], "line A");
    assert_eq!(ps.screen_buffer[2], "line C");
}

#[test]
fn buffer_truncates_to_max_lines() {
    let mut ps = make_state();
    for i in 0..BUFFER_MAX_LINES + 100 {
        ps.screen_buffer.push(format!("line {i}"));
    }
    ps.ingest_screen("new line\n", at(0));
    assert!(ps.screen_buffer.len() <= BUFFER_MAX_LINES);
}

#[test]
fn last_poll_set_after_ingest() {
    let mut ps = make_state();
    assert!(ps.last_poll.is_none());
    ps.ingest_screen("hello\n", at(0));
    assert!(ps.last_poll.is_some());
}

#[test]
fn render_shows_loading_when_buffer_empty() {
    let ps = make_state();
    let dump = placeholder(&ps).unwrap();
    assert!(dump.contains("No screen data") || dump.contains("Loading"));
}

#[test]
fn render_shows_surface_id_in_title() {
    let mut ps = PeekState::new(
        "workspace:1".to_string(),
        "workspace:5".to_string(),
        "my-surface".to_string(),
        PeekSource::Shell,
    );
    ps.ingest_screen("hello world\n", at(0));
    assert!(peek_title(&ps).contains("my-surface"));
}

#[test]
fn render_shows_screen_buffer_content() {
    let mut ps = make_state();
    ps.auto_follow = false;
    ps.ingest_screen("hello from peek\nworld line\n", at(0));
    ps.scroll_offset = 0;
    assert!(placeholder(&ps).is_none());
    assert!(visible(&ps, 13).contains(&"hello from peek".to_string()));
}

#[test]
fn render_with_auto_follow_shows_bottom_of_buffer() {
    let mut ps = make_state();
    ps.ingest_screen("hello from peek\nworld line\n", at(0));
    assert!(visible(&ps, 3).contains(&"world line".to_string()));
}

#[test]
fn auto_follow_initially_true() {
    let ps = make_state();
    assert!(
        ps.auto_follow,
        "auto_follow should default to true on new()"
    );
}

#[test]
fn ingest_with_auto_follow_snaps_to_bottom() {
    let mut ps = make_state();
    for i in 0..30 {
        ps.screen_buffer.push(format!("line {i}"));
    }
    ps.scroll_offset = 0;
    ps.auto_follow = true;
    ps.ingest_screen("new-line-a\nnew-line-b\n", at(0));
    assert_eq!(ps.scroll_offset, ps.max_scroll());
    assert!(
        ps.auto_follow,
        "ingest must not disable auto_follow on its own"
    );
}

#[test]
fn ingest_without_auto_follow_preserves_offset() {
    let mut ps = make_state();
    for i in 0..30 {
        ps.screen_buffer.push(format!("line {i}"));
    }
    ps.scroll_offset = 5;
    ps.auto_follow = false;
    ps.ingest_screen("new-line\n", at(0));
    assert_eq!(ps.scroll_offset, 5);
}

#[test]
fn manual_scroll_down_disables_auto_follow() {
    let mut ps = make_state();
    for i in 0..30 {
        ps.screen_buffer.push(format!("line {i}"));
    }
    assert!(ps.auto_follow);
    ps.scroll_down();
    assert!(!ps.auto_follow, "j must disable auto_follow");
}

#[test]
fn page_down_moves_by_page_size() {
    let mut ps = make_state();
    for i in 0..50 {
        ps.screen_buffer.push(format!("line {i}"));
    }
    ps.scroll_offset = 0;
    ps.page_down();
    assert_eq!(ps.scroll_offset, PAGE_SIZE);
    assert!(!ps.auto_follow);
}

#[test]
fn page_down_clamps_at_bottom() {
    let mut ps = make_state();
    for i in 0..50 {
        ps.screen_buffer.push(format!("line {i}"));
    }
    let max = ps.max_scroll();
    ps.scroll_offset = max.saturating_sub(2);
    ps.page_down();
    assert_eq!(ps.scroll_offset, max);
}

#[test]
fn page_up_moves_by_page_size() {
    let mut ps = make_state();
    for i in 0..50 {
        ps.screen_buffer.push(format!("line {i}"));
    }
    ps.scroll_offset = 25;
    ps.page_up();
    assert_eq!(ps.scroll_offset, 25 - PAGE_SIZE);
    assert!(!ps.auto_follow);
}

#[test]
fn page_up_saturates_at_zero() {
    let mut ps = make_state();
    for i in 0..50 {
        ps.screen_buffer.push(format!("line {i}"));
    }
    ps.scroll_offset = 3;
    ps.page_up();
    assert_eq!(ps.scroll_offset, 0);
}

#[test]
fn go_bottom_reenables_auto_follow() {
    let mut ps = make_state();
    for i in 0..30 {
        ps.screen_buffer.push(format!("line {i}"));
    }
    ps.scroll_up(); // disables auto_follow
    assert!(!ps.auto_follow);
    ps.go_bottom();
    assert!(ps.auto_follow, "G must re-enable auto_follow");
    assert_eq!(ps.scroll_offset, ps.max_scroll());
}

#[test]
fn truncate_words_truncates_after_n_words() {
    let s = "one two three four five six seven eight nine ten eleven";
    let result = truncate_words(s, 5);
    assert_eq!(result, "one two three four five…");
}

#[test]
fn truncate_words_passes_through_short_content() {
    let s = "hello world";
    let result = truncate_words(s, 100);
    assert_eq!(result, s);
}

#[test]
fn is_user_role_matches_boyan_and_user_case_insensitive() {
    assert!(is_user_role("boyan"));
    assert!(is_user_role("Boyan"));
    assert!(is_user_role("BOYAN"));
    assert!(is_user_role("user"));
    assert!(is_user_role("User"));
    assert!(!is_user_role("agent-c"));
    assert!(!is_user_role("assistant"));
    assert!(!is_user_role("codex"));
}

#[test]
fn rebuild_agent_buffer_assembles_turns_with_truncation() {
    let long_response: String =
        (0..120).map(|i| format!("word{i}")).collect::<Vec<_>>().join(" ");
    let turns = vec![turn("09:00 PT", "boyan", "hello there"), turn("09:01 PT", "agent-c", &long_response)];
    let mut ps = PeekState::new(
        "workspace:1".to_string(),
        "surface:1".to_string(),
        "test".to_string(),
        PeekSource::Agent { session_path: "/tmp/session.md".to_string() },
    );
    rebuild_agent_buffer(&mut ps, Some(&turns), at(0));
    assert!(!ps.screen_buffer.is_empty());
    let assistant_header = ps.screen_buffer.iter().find(|l| l.contains("09:01")).unwrap();
    assert!(assistant_header.contains("agent-c"));
    let assistant_header_idx = ps.screen_buffer.iter().position(|l| l.contains("09:01")).unwrap();
    let content_after =
        ps.screen_buffer[assistant_header_idx + 1..].iter().find(|l| !l.is_empty()).unwrap();
    assert!(content_after.contains('…'));
}

#[test]
fn rebuild_agent_buffer_preserves_user_turns_verbatim() {
    let user_text = "please do the thing exactly as I described";
    let turns = vec![turn("10:00 PT", "boyan", user_text)];
    let mut ps = PeekState::new(
        "workspace:1".to_string(),
        "surface:1".to_string(),
        "test".to_string(),
        PeekSource::Agent { session_path: "/tmp/session.md".to_string() },
    );
    rebuild_agent_buffer(&mut ps, Some(&turns), at(0));
    let joined = ps.screen_buffer.join("\n");
    assert!(joined.contains(user_text));
    assert!(!joined.contains('…'));
}

#[test]
fn a_poll_is_due_after_one_second() {
    let mut ps = make_state();
    assert!(ps.should_poll(at(0)));
    ps.ingest_screen("x\n", at(5_000_000_000));
    assert!(!ps.should_poll(at(5_999_999_999)));
    assert!(ps.should_poll(at(6_000_000_000)));
    ps.polling = true;
    assert!(!ps.should_poll(at(9_000_000_000)));
}

#[test]
fn a_log_is_shown_turn_by_turn() {
    let turns = vec![turn("09:00 PT", "User", "hello\nthere"), turn("09:01 PT", "codex", "done")];
    let mut ps = make_state();
    ps.polling = true;
    rebuild_agent_buffer(&mut ps, Some(&turns), at(7));
    assert_eq!(
        ps.screen_buffer,
        vec!["## 09:00 PT — User", "hello", "there", "", "## 09:01 PT — codex", "done", ""]
    );
    assert_eq!(ps.scroll_offset, 6);
    assert!(!ps.polling);
    assert_eq!(ps.last_poll, Some(at(7)));
}

#[test]
fn an_unreadable_log_keeps_the_content() {
    let mut ps = make_state();
    ps.ingest_screen("kept\n", at(1));
    ps.polling = true;
    rebuild_agent_buffer(&mut ps, None, at(2));
    assert_eq!(ps.screen_buffer, vec!["kept"]);
    assert!(!ps.polling);
    assert_eq!(ps.last_poll, Some(at(2)));
}

#[test]
fn the_newest_lines_are_kept() {
    let mut ps = make_state();
    for i in 0..BUFFER_MAX_LINES {
        ps.screen_buffer.push(format!("line {i}"));
    }
    ps.scroll_offset = 600;
    ps.auto_follow = false;
    ps.ingest_screen("a\r\nb\n", at(0));
    assert_eq!(ps.screen_buffer.len(), BUFFER_MAX_LINES);
    assert_eq!(ps.screen_buffer[0], "line 2");
    assert_eq!(ps.screen_buffer[BUFFER_MAX_LINES - 2], "a");
    assert_eq!(ps.screen_buffer[BUFFER_MAX_LINES - 1], "b");
    assert_eq!(ps.scroll_offset, 499);
}

#[test]
fn scrolling_stays_within_the_content() {
    let mut ps = make_state();
    for i in 0..5 {
        ps.screen_buffer.push(format!("line {i}"));
    }
    ps.scroll_down();
    ps.scroll_down();
    assert_eq!(ps.scroll_offset, 4);
    ps.page_down();
    assert_eq!(ps.scroll_offset, 4);
    ps.page_up();
    assert_eq!(ps.scroll_offset, 0);
}

#[test]
fn a_poll_under_way_shows_loading() {
    let mut ps = make_state();
    ps.polling = true;
    assert_eq!(placeholder(&ps), Some("Loading screen…"));
    assert!(ps.uses_cmux_screen());
    assert_eq!(
        peek_title(&ps),
        " Peek: workspace:3 (j/k slow · Space/- page · g/G top/bot · Esc back · Enter yield) "
    );
}

#[test]
fn a_cut_text_has_no_more_words_than_the_limit() {
    let cut = truncate_words("a  b\nc d e", 3);
    assert_eq!(cut, "a b c…");
    assert_eq!(cut.split_whitespace().count(), 3);
}
