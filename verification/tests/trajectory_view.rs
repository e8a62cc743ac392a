//! The layout of the detail pane.
use mission_control::sidebar::workspace_accent_color;
use mission_control::style::{plain, Color, Line, Style};
use mission_control::surface::{glyph_kind, kind_color, SurfaceKind};
use mission_control::trajectory::{
    Item, Section, TrajectoryDoc, SECTION_CURRENT_SURFACES, SECTION_GOALS, SECTION_MISSION,
};
use mission_control::trajectory_edit::{
    EditMode, InsertFocus, MissionFocus, TrajectoryEditState,
};
use mission_control::trajectory_view::{
    context_strip, detail_body, effective_scroll, goal_row_spans, mission_display_text,
    pane_content, push_field_lines, render_mission_section, split_surface_intent, PaneContent,
    RenderHints, ACTIVE_MISSION_MAX_CHARS, MAX_FIELD_LINES,
};
use mission_control::wrap::{truncate, truncate_chars, truncate_for_width, wrap_words};

fn bullet(text: &str) -> Item {
    Item { text: text.to_string(), is_checkbox: false, checked: None, surface_id: None }
}

fn task(text: &str, checked: bool) -> Item {
    Item { text: text.to_string(), is_checkbox: true, checked: Some(checked), surface_id: None }
}

fn surface_row(text: &str, surface: &str) -> Item {
    Item { surface_id: Some(surface.to_string()), ..bullet(text) }
}

fn doc_of(mission: Vec<Item>, surfaces: Vec<Item>, goals: Vec<Item>) -> TrajectoryDoc {
    let mut doc = TrajectoryDoc::default();
    doc.ensure_sections();
    doc.sections[0].items = mission;
    doc.sections[1].items = surfaces;
    doc.sections[2].items = goals;
    doc
}

fn sample() -> TrajectoryDoc {
    doc_of(
        vec![bullet("Build self-improvement-enabled investment agent")],
        vec![surface_row("agent-c · mbp · working · writing tests", "sid-1")],
        vec![task("sprint-01 done", true), task("sprint-02", false)],
    )
}

fn intent_sample() -> TrajectoryDoc {
    doc_of(
        vec![bullet("Demo")],
        vec![surface_row(
            "✻ agent-c · agent-c · mbp · working   overall:Build detail view   ask:Show Beads rows",
            "surface:11",
        )],
        vec![task("repo-1 active issue", false)],
    )
}

fn badge_sample() -> TrajectoryDoc {
    doc_of(
        vec![bullet("Demo")],
        vec![
            surface_row(
                "✻ agent-c · agent-c · mbp · working   ← goal:Wire up T3 rendering",
                "surface:11",
            ),
            surface_row("▲ codex · shell · mbp · idle", "surface:22"),
        ],
        vec![task("Wire up T3 rendering   → ✻ surface:11", false), task("Land T0 rename", true)],
    )
}

fn show(doc: &TrajectoryDoc, edit: Option<&TrajectoryEditState>, width: u16) -> PaneContent {
    pane_content(Some(doc), 0, edit, &RenderHints::default(), width, 18)
}

fn texts(lines: &[Line]) -> Vec<String> {
    lines.iter().map(|l| l.content()).collect()
}

fn dump(pane: &PaneContent) -> String {
    let mut all = texts(&pane.lines);
    if let Some(strip) = &pane.context {
        all.extend(texts(strip));
    }
    all.join("\n")
}

/// The style of `marker` in the first line that holds `needle`.
fn style_of(pane: &PaneContent, needle: &str, marker: char) -> Option<Style> {
    let line = pane.lines.iter().find(|l| l.content().contains(needle))?;
    line.spans.iter().find(|s| s.text.contains(marker)).map(|s| s.style)
}

#[test]
fn mission_section_renders_multiple_active_checkboxes_and_folded_history() {
    let section = Section {
        name: SECTION_MISSION.to_string(),
        items: vec![task("Agent mission", false), task("[h] Human mission", false)],
    };
    let history = vec![task("Finished mission", true)];
    let (lines, _) = render_mission_section(&section, &history, 0, None);
    let rendered = texts(&lines);
    assert_eq!(rendered[0], "## Mission");
    assert_eq!(rendered[1], "- [ ] Agent mission");
    assert_eq!(rendered[2], "- [ ] [h] Human mission");
    assert!(rendered.iter().any(|line| line == "## Mission history (1) ▸ Enter to unfold"));
    assert!(!rendered.iter().any(|line| line.contains("Finished mission")));
}

#[test]
fn expanded_mission_history_renders_every_completed_row() {
    let section = Section {
        name: SECTION_MISSION.to_string(),
        items: vec![task("Active mission", false)],
    };
    let mut history = Vec::new();
    for idx in 1..=15 {
        history.push(task(&format!("Finished mission {idx:02}"), true));
    }
    let edit_state = TrajectoryEditState {
        mission_history_expanded: true,
        mission_focus: MissionFocus::HistoryItem(14),
        ..TrajectoryEditState::default()
    };
    let (lines, _) = render_mission_section(&section, &history, 0, Some(&edit_state));
    let rendered = texts(&lines);
    assert!(rendered.iter().any(|line| line == "## Mission history (15) ▾ Enter to fold"));
    assert_eq!(
        rendered.iter().filter(|line| line.starts_with("- [x] Finished mission")).count(),
        15
    );
    assert!(rendered.iter().any(|line| line.contains("Finished mission 15")));
}

#[test]
fn provisional_human_mission_renders_as_unchecked_insert_row() {
    let section = Section { name: SECTION_MISSION.to_string(), items: vec![task("", false)] };
    let edit_state = TrajectoryEditState {
        mode: EditMode::Insert { focus: InsertFocus::Item },
        edit_buffer: "New human mission".to_string(),
        provisional_human_mission: true,
        cursor_col: 6,
        ..TrajectoryEditState::default()
    };
    let (lines, _) = render_mission_section(&section, &Vec::new(), 0, Some(&edit_state));
    assert!(texts(&lines)[1].starts_with("- [ ] New h"));
}

#[test]
fn render_emits_section_headers_and_items() {
    let dump = dump(&show(&sample(), None, 78));
    assert!(dump.contains("Mission"));
    assert!(dump.contains("Current surfaces"));
    assert!(dump.contains("Beads"));
    assert!(dump.contains("Build self-improvement"));
    assert!(dump.contains("writing tests"));
    assert!(dump.contains("sprint-01 done"));
    assert!(!dump.contains("mc:surface:"));
}

#[test]
fn render_can_label_canonical_task_section_as_linear() {
    let hints = RenderHints {
        task_section_title: Some("Linear".to_string()),
        ..RenderHints::default()
    };
    let pane = pane_content(Some(&sample()), 0, None, &hints, 78, 18);
    let dump = dump(&pane);
    assert!(dump.contains("Linear"));
    assert!(!dump.contains("Beads"));
    assert!(dump.contains("sprint-01 done"));
}

#[test]
fn render_expands_surface_overall_and_latest_ask_lines() {
    let dump = dump(&show(&intent_sample(), None, 88));
    assert!(dump.contains("overall:"));
    assert!(dump.contains("Build detail view"));
    assert!(dump.contains("latest:"));
    assert!(dump.contains("Show Beads rows"));
}

#[test]
fn cursor_on_surface_row_keeps_overall_and_latest_structure() {
    let doc = intent_sample();
    let surfaces_idx = doc
        .sections
        .iter()
        .position(|s| s.name == SECTION_CURRENT_SURFACES)
        .expect("current surfaces section");
    let state = TrajectoryEditState {
        cursor_section: surfaces_idx,
        cursor_item: 0,
        mode: EditMode::Nav,
        ..Default::default()
    };
    let pane = show(&doc, Some(&state), 88);
    let dump = dump(&pane);
    assert!(dump.contains("overall:") && dump.contains("Build detail view"));
    assert!(dump.contains("latest:") && dump.contains("Show Beads rows"));
    let highlighted_main = pane.lines.iter().any(|l| {
        let row = l.content();
        row.contains("agent-c")
            && !row.contains("overall:")
            && !row.contains("latest:")
            && l.spans.iter().any(|s| s.style.bg == Some(Color::Cyan))
    });
    assert!(highlighted_main);
}

#[test]
fn render_with_no_doc_shows_placeholder() {
    let pane = pane_content(None, 0, None, &RenderHints::default(), 78, 8);
    let dump = dump(&pane);
    assert!(dump.contains("No trajectory") || dump.contains("no trajectory"));
}

#[test]
fn render_highlights_cursor_item_in_nav_mode() {
    let state = TrajectoryEditState {
        cursor_section: 0,
        cursor_item: 0,
        mode: EditMode::Nav,
        ..Default::default()
    };
    let pane = show(&sample(), Some(&state), 78);
    let style = style_of(&pane, "Build self-improvement", 'B').unwrap();
    assert_eq!(style.bg, Some(Color::Cyan));
}

#[test]
fn render_insert_mode_shows_input_context_strip() {
    let state = TrajectoryEditState {
        cursor_section: 0,
        cursor_item: 0,
        mode: EditMode::Insert { focus: InsertFocus::Item },
        edit_buffer: "Edited goal".to_string(),
        ..Default::default()
    };
    let dump = dump(&show(&sample(), Some(&state), 78));
    assert!(dump.contains("input context"));
    assert!(dump.contains("Edited goal"));
}

#[test]
fn render_highlights_empty_section_header_when_cursor_on_it() {
    let mut doc = TrajectoryDoc::default();
    doc.ensure_sections();
    let state = TrajectoryEditState {
        cursor_section: 1,
        cursor_item: 0,
        mode: EditMode::Nav,
        ..Default::default()
    };
    let pane = show(&doc, Some(&state), 78);
    let style = style_of(&pane, "Current surfaces", 'C').unwrap();
    assert_eq!(style.bg, Some(Color::Cyan));
}

#[test]
fn render_insert_mode_shows_edit_buffer_text() {
    let state = TrajectoryEditState {
        cursor_section: 2,
        cursor_item: 1,
        mode: EditMode::Insert { focus: InsertFocus::Item },
        edit_buffer: "sprint-02 in progress".to_string(),
        ..Default::default()
    };
    let dump = dump(&show(&sample(), Some(&state), 78));
    assert!(dump.contains("sprint-02 in progress"));
}

#[test]
fn render_uses_workspace_accent_for_detail_border() {
    assert_eq!(
        workspace_accent_color(&Some("#C0392B".to_string())),
        Some(Color::Rgb(0xC0, 0x39, 0x2B))
    );
}

#[test]
fn surface_glyph_gets_kind_color() {
    let pane = show(&badge_sample(), None, 118);
    assert_eq!(
        style_of(&pane, "agent-c · agent-c", '✻').unwrap().fg,
        Some(kind_color(SurfaceKind::Claude))
    );
    assert_eq!(
        style_of(&pane, "codex · shell", '▲').unwrap().fg,
        Some(kind_color(SurfaceKind::Codex))
    );
}

#[test]
fn just_exited_surface_renders_with_dim_modifier() {
    let hints = RenderHints {
        dim_surface_refs: vec!["surface:22".to_string()],
        task_section_title: None,
    };
    let pane = pane_content(Some(&badge_sample()), 0, None, &hints, 118, 18);
    assert!(style_of(&pane, "codex · shell", '▲').expect("codex row").dim);
    assert!(!style_of(&pane, "agent-c · agent-c", '✻').expect("live row").dim);
}

#[test]
fn surface_row_renders_goal_badge_in_dark_gray() {
    let pane = show(&badge_sample(), None, 118);
    assert!(dump(&pane).contains("← goal:Wire up T3 rendering"));
    assert_eq!(style_of(&pane, "← goal:", '←').unwrap().fg, Some(Color::DarkGray));
}

#[test]
fn goal_row_renders_surface_badge_in_dark_gray() {
    let pane = show(&badge_sample(), None, 118);
    assert_eq!(
        style_of(&pane, "Wire up T3 rendering   →", '→').unwrap().fg,
        Some(Color::DarkGray)
    );
}

#[test]
fn no_goals_no_change_in_rendered_buffer() {
    let doc = doc_of(
        vec![bullet("Mission item")],
        Vec::new(),
        vec![task("An ordinary goal", false)],
    );
    let dump = dump(&show(&doc, None, 78));
    assert!(!dump.contains("← goal:"));
    assert!(!dump.contains("   → "));
    assert!(dump.contains("An ordinary goal"));
}

#[test]
fn wrap_words_short_value_stays_one_line() {
    let out = wrap_words("build the detail view", 40, 4);
    assert_eq!(out, vec!["build the detail view".to_string()]);
}

#[test]
fn wrap_words_wraps_to_multiple_lines() {
    let out = wrap_words("aaaaa bbbbb ccccc ddddd", 11, 4);
    assert_eq!(out, vec!["aaaaa bbbbb".to_string(), "ccccc ddddd".to_string()]);
}

#[test]
fn wrap_words_caps_at_max_lines_with_ellipsis() {
    let text = "one two three four five six seven eight nine ten eleven twelve";
    let out = wrap_words(text, 9, 4);
    assert_eq!(out.len(), 4);
    assert!(out.last().unwrap().ends_with('…'));
    assert!(out.iter().all(|l| l.chars().count() <= 9));
}

#[test]
fn wrap_words_hard_splits_overlong_word() {
    let out = wrap_words("abcdefghijklmnop", 5, 4);
    assert_eq!(out, vec!["abcde", "fghij", "klmno", "p"]);
}

#[test]
fn nav_cursor_scrolls_viewport_into_view() {
    let goals = (0..30).map(|i| task(&format!("bead item number {i:02}"), false)).collect();
    let doc = doc_of(vec![bullet("active mission")], Vec::new(), goals);
    let mut state = TrajectoryEditState::default();
    state.cursor_section = 2;
    state.cursor_item = 27;
    let body = detail_body(&doc, 0, Some(&state), &RenderHints::default(), 58, 10);
    let shown: Vec<String> =
        texts(&body.lines).into_iter().skip(body.scroll as usize).take(10).collect();
    let dump = shown.join("\n");
    assert!(dump.contains("bead item number 27"));
    assert!(!dump.contains("bead item number 00"));
}

#[test]
fn an_overlong_word_after_others_is_split_too() {
    assert_eq!(wrap_words("ab cdefghijkl", 5, 4), vec!["ab", "cdefg", "hijkl"]);
}

#[test]
fn the_wrapped_text_fits_any_budget() {
    for width in 1..12 {
        for max in 1..5 {
            let out = wrap_words("a bb ccc dddd eeeee ffffff ggggggg", width, max);
            assert!(out.len() <= max);
            assert!(out.iter().all(|l| l.chars().count() <= width));
        }
    }
}

#[test]
fn texts_are_cut_with_an_ellipsis() {
    assert_eq!(truncate_chars("abcdef", 3), "abc…");
    assert_eq!(truncate_chars("abc", 3), "abc");
    assert_eq!(truncate("abcdef", 3), "ab…");
    assert_eq!(truncate("abc", 3), "abc");
    assert_eq!(truncate_for_width("abcdef", 3), "ab…");
    assert_eq!(truncate_for_width("abcdef", 1), "…");
    assert_eq!(truncate_for_width("abcdef", 0), "");
}

#[test]
fn scrolling_follows_the_cursor_only_when_navigating() {
    assert_eq!(effective_scroll(Some(27), true, 0, 10), 18);
    assert_eq!(effective_scroll(Some(3), true, 7, 10), 3);
    assert_eq!(effective_scroll(Some(8), true, 7, 10), 7);
    assert_eq!(effective_scroll(Some(27), false, 2, 10), 2);
    assert_eq!(effective_scroll(None, true, 2, 10), 2);
}

#[test]
fn a_surface_row_splits_into_head_goal_and_ask() {
    let (head, overall, latest) = split_surface_intent("✻ x · mbp   overall:Goal   ask:Ask");
    assert_eq!(head, "✻ x · mbp");
    assert_eq!(overall.as_deref(), Some("Goal"));
    assert_eq!(latest.as_deref(), Some("Ask"));
    let (head, overall, latest) = split_surface_intent("✻ x · mbp");
    assert_eq!(head, "✻ x · mbp");
    assert_eq!(overall, None);
    assert_eq!(latest, None);
}

#[test]
fn a_goal_badge_is_a_span_of_its_own() {
    let spans = goal_row_spans("Ship it   → ✻ surface:1", plain());
    assert_eq!(spans.iter().map(|s| s.text.as_str()).collect::<String>(), "Ship it   → ✻ surface:1");
    assert!(spans.len() > 1);
    assert_eq!(goal_row_spans("Ship it", plain()).len(), 1);
}

#[test]
fn the_context_strip_shows_only_while_writing() {
    let nav = TrajectoryEditState::default();
    assert!(context_strip(&nav).is_none());
    let writing = TrajectoryEditState {
        mode: EditMode::Insert { focus: InsertFocus::InputCtx },
        input_ctx_buffer: "because".to_string(),
        ..TrajectoryEditState::default()
    };
    let lines = texts(&context_strip(&writing).unwrap());
    assert_eq!(lines[0], "─── input context (Esc to save) ───────────────");
    assert_eq!(lines[1], "because▋");
    assert_eq!(lines.len(), 2);
}

#[test]
fn every_kind_is_recognized_by_its_sign() {
    for kind in [
        SurfaceKind::Claude,
        SurfaceKind::Codex,
        SurfaceKind::OtherAgent,
        SurfaceKind::Shell,
        SurfaceKind::Remote,
        SurfaceKind::Unknown,
    ] {
        assert_eq!(glyph_kind(kind.glyph()), Some(kind));
    }
    assert_eq!(glyph_kind('x'), None);
}

#[test]
fn a_mission_is_trimmed_and_cut() {
    assert_eq!(mission_display_text("  ship it "), "ship it");
    let long = "x".repeat(ACTIVE_MISSION_MAX_CHARS + 1);
    let shown = mission_display_text(&long);
    assert_eq!(shown.chars().count(), ACTIVE_MISSION_MAX_CHARS + 1);
    assert!(shown.ends_with('…'));
}

#[test]
fn the_goals_are_titled_beads() {
    assert_eq!(SECTION_GOALS, "Beads");
    let titles: Vec<String> = sample().sections.iter().map(|s| s.name.clone()).collect();
    assert_eq!(titles, vec![SECTION_MISSION, SECTION_CURRENT_SURFACES, SECTION_GOALS]);
}

#[test]
fn a_field_is_cut_after_its_last_line() {
    let mut lines: Vec<Line> = Vec::new();
    let value = "word ".repeat(40);
    push_field_lines(&mut lines, "overall ", &value, plain(), 28);
    assert_eq!(lines.len(), MAX_FIELD_LINES);
    assert_eq!(lines[0].spans[0].text, "overall ");
    assert_eq!(lines[0].spans[1].text, "word word word word");
    assert_eq!(lines[1].spans[0].text, "        ");
    assert!(lines[3].spans[1].text.ends_with('…'));
    assert!(lines[3].spans[1].text.chars().count() <= 20);
}

#[test]
fn wrapping_keeps_the_words_and_wastes_no_line() {
    let lines = wrap_words("aa bb  cc\tdd ee", 5, 3);
    assert_eq!(lines, vec!["aa bb", "cc dd", "ee"]);
    assert_eq!(lines.join(" "), "aa bb cc dd ee");
    assert_eq!(wrap_words("aa bb cc dd ee", 5, 2), vec!["aa bb", "cc d…"]);
}
