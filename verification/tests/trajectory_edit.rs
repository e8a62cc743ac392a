//! Keys in the trajectory editor.
use mission_control::app_panes::mission_description;
use mission_control::clock::Moment;
use mission_control::keys::{KeyCode, KeyEvent, KeyModifiers};
use mission_control::trajectory::{Item, TrajectoryDoc, SECTION_MISSION};
use mission_control::trajectory_edit::{
    handle_key, insert_item_below, EditAction, EditMode, InsertFocus, MissionFocus, TrajectoryEditState,
};

fn press(
    state: &mut TrajectoryEditState,
    doc: &mut TrajectoryDoc,
    key: KeyEvent,
) -> Vec<EditAction> {
    handle_key(state, doc, key, Moment { nanos: 0 })
}

fn key(code: KeyCode) -> KeyEvent {
    KeyEvent { code, modifiers: KeyModifiers::Plain }
}

fn shift_key(c: char) -> KeyEvent {
    KeyEvent { code: KeyCode::Char(c), modifiers: KeyModifiers::Shift }
}

fn row(text: &str, checked: Option<bool>) -> Item {
    Item {
        text: text.to_string(),
        is_checkbox: checked.is_some(),
        checked,
        surface_id: None,
    }
}

fn make_doc() -> TrajectoryDoc {
    let mut doc = TrajectoryDoc::default();
    doc.ensure_sections();
    doc.sections[0].items.push(row("Build investment agent", None));
    doc.sections[1].items.push(row("agent · mbp · working", None));
    doc.sections[2].items.push(row("sprint-01 done", Some(true)));
    doc.sections[2].items.push(row("sprint-02", Some(false)));
    doc.sections[2].items.push(row("sprint-03", Some(false)));
    doc
}

fn make_long_mission_history_doc() -> TrajectoryDoc {
    let mut doc = make_doc();
    for idx in 0..18 {
        doc.mission_history.push(Item {
            text: format!("Finished mission {idx:02}"),
            is_checkbox: true,
            checked: Some(true),
            surface_id: None,
        });
    }
    doc
}

#[test]
fn j_moves_within_section() {
    let doc = make_doc();
    let mut state = TrajectoryEditState::default();
    // Start at Goal section (section 0, item 0).
    assert_eq!(state.cursor_section, 0);
    assert_eq!(state.cursor_item, 0);

    press(&mut state, &mut doc.clone(), key(KeyCode::Char('j')));
    // Goal has 1 item, so cursor stays (no next item in section, but next section = Current surfaces with 1 item).
    assert_eq!(state.cursor_section, 1);
    assert_eq!(state.cursor_item, 0);
}

#[test]
fn j_crosses_section_boundary() {
    let doc = make_doc();
    let mut state = TrajectoryEditState {
        cursor_section: 0,
        cursor_item: 0,
        ..Default::default()
    };
    // Goal has 1 item. Moving down should land on Current surfaces item 0.
    press(&mut state, &mut doc.clone(), key(KeyCode::Char('j')));
    assert_eq!(state.cursor_section, 1);
    assert_eq!(state.cursor_item, 0);
}

#[test]
fn j_from_folded_mission_history_header_moves_to_next_section() {
    let mut doc = make_long_mission_history_doc();
    let mut state = TrajectoryEditState {
        mission_focus: MissionFocus::HistoryHeader,
        ..Default::default()
    };

    press(&mut state, &mut doc, key(KeyCode::Char('j')));

    assert_eq!(state.cursor_section, 1);
    assert_eq!(state.cursor_item, 0);
}

#[test]
fn k_from_next_section_lands_on_folded_mission_history_header() {
    let mut doc = make_long_mission_history_doc();
    let mut state = TrajectoryEditState {
        cursor_section: 1,
        cursor_item: 0,
        ..Default::default()
    };

    press(&mut state, &mut doc, key(KeyCode::Char('k')));

    assert_eq!(state.cursor_section, 0);
    assert_eq!(state.mission_focus, MissionFocus::HistoryHeader);
}

#[test]
fn j_lands_on_empty_section_header_then_skips_on_next_j() {
    let mut doc = make_doc();
    // Clear Current surfaces items.
    doc.sections[1].items.clear();
    let mut state = TrajectoryEditState {
        cursor_section: 0,
        cursor_item: 0,
        ..Default::default()
    };
    // Goal item 0 → j → land on empty Current surfaces header.
    press(&mut state, &mut doc, key(KeyCode::Char('j')));
    assert_eq!(state.cursor_section, 1);
    assert_eq!(state.cursor_item, 0);
    // j again → Tasks item 0.
    press(&mut state, &mut doc, key(KeyCode::Char('j')));
    assert_eq!(state.cursor_section, 2);
    assert_eq!(state.cursor_item, 0);
}

#[test]
fn k_moves_up_across_sections() {
    let doc = make_doc();
    let mut state = TrajectoryEditState {
        cursor_section: 2,
        cursor_item: 0,
        ..Default::default()
    };
    // Tasks item 0 → up → Current surfaces item 0 (last item).
    press(&mut state, &mut doc.clone(), key(KeyCode::Char('k')));
    assert_eq!(state.cursor_section, 1);
    assert_eq!(state.cursor_item, 0);
}

#[test]
fn g_goes_to_first_non_empty_section() {
    let doc = make_doc();
    let mut state = TrajectoryEditState {
        cursor_section: 2,
        cursor_item: 1,
        ..Default::default()
    };
    press(&mut state, &mut doc.clone(), key(KeyCode::Char('g')));
    assert_eq!(state.cursor_section, 0);
    assert_eq!(state.cursor_item, 0);
}

#[test]
fn big_g_goes_to_last_item() {
    let doc = make_doc();
    let mut state = TrajectoryEditState::default();
    press(&mut state, &mut doc.clone(), shift_key('G'));
    // Tasks has 3 items (sprint-01, sprint-02, sprint-03), last index = 2.
    assert_eq!(state.cursor_section, 2);
    assert_eq!(state.cursor_item, 2);
}

#[test]
fn big_g_in_mission_only_doc_targets_active_mission() {
    let mut doc = make_long_mission_history_doc();
    doc.sections[1].items.clear();
    doc.sections[2].items.clear();
    let mut state = TrajectoryEditState::default();

    press(&mut state, &mut doc, shift_key('G'));

    assert_eq!(state.cursor_section, 0);
    assert_eq!(state.cursor_item, 0);
    assert_eq!(state.mission_focus, MissionFocus::Active);
}

#[test]
fn i_enters_insert_mode_with_current_text() {
    let doc = make_doc();
    let mut state = TrajectoryEditState::default(); // Goal, item 0
    press(&mut state, &mut doc.clone(), key(KeyCode::Char('i')));
    assert!(matches!(state.mode, EditMode::Insert { .. }));
    assert_eq!(state.edit_buffer, "Build investment agent");
    assert_eq!(
        state.edit_start_text.as_deref(),
        Some("Build investment agent")
    );
}

#[test]
fn typing_appends_to_edit_buffer() {
    let doc = make_doc();
    let mut state = TrajectoryEditState::default();
    let mut doc_mut = doc.clone();
    press(&mut state, &mut doc_mut, key(KeyCode::Char('i')));
    press(&mut state, &mut doc_mut, key(KeyCode::Char('!')));
    assert_eq!(state.edit_buffer, "Build investment agent!");
}

#[test]
fn esc_commits_edit_and_returns_to_nav() {
    let doc = make_doc();
    let mut state = TrajectoryEditState::default();
    let mut doc_mut = doc.clone();

    // Enter insert, type new text, press Esc.
    press(&mut state, &mut doc_mut, key(KeyCode::Char('i')));
    // Clear buffer and type new text.
    state.edit_buffer = "New goal text".to_string();
    let actions = press(&mut state, &mut doc_mut, key(KeyCode::Esc));

    assert_eq!(state.mode, EditMode::Nav);
    // Doc updated.
    assert_eq!(doc_mut.sections[0].items[0].text, "New goal text");
    // One edit action produced.
    assert_eq!(actions.len(), 1);
    assert!(matches!(actions[0], EditAction::Edit { .. }));
}

#[test]
fn esc_on_unchanged_text_emits_no_action() {
    let doc = make_doc();
    let mut state = TrajectoryEditState::default();
    let mut doc_mut = doc.clone();
    press(&mut state, &mut doc_mut, key(KeyCode::Char('i')));
    // Don't type anything — esc immediately.
    let actions = press(&mut state, &mut doc_mut, key(KeyCode::Esc));
    assert_eq!(actions.len(), 0);
}

#[test]
fn tab_toggles_insert_focus() {
    let doc = make_doc();
    let mut state = TrajectoryEditState::default();
    let mut doc_mut = doc.clone();
    press(&mut state, &mut doc_mut, key(KeyCode::Char('i')));
    assert!(matches!(
        state.mode,
        EditMode::Insert {
            focus: InsertFocus::Item
        }
    ));

    press(&mut state, &mut doc_mut, key(KeyCode::Tab));
    assert!(matches!(
        state.mode,
        EditMode::Insert {
            focus: InsertFocus::InputCtx
        }
    ));

    press(&mut state, &mut doc_mut, key(KeyCode::Tab));
    assert!(matches!(
        state.mode,
        EditMode::Insert {
            focus: InsertFocus::Item
        }
    ));
}

#[test]
fn typing_in_input_ctx_focus_goes_to_input_ctx_buffer() {
    let doc = make_doc();
    let mut state = TrajectoryEditState::default();
    let mut doc_mut = doc.clone();
    press(&mut state, &mut doc_mut, key(KeyCode::Char('i')));
    press(&mut state, &mut doc_mut, key(KeyCode::Tab)); // switch to InputCtx
    press(&mut state, &mut doc_mut, key(KeyCode::Char('w')));
    press(&mut state, &mut doc_mut, key(KeyCode::Char('h')));
    press(&mut state, &mut doc_mut, key(KeyCode::Char('y')));
    assert_eq!(state.input_ctx_buffer, "why");
    // Edit buffer should be untouched.
    assert_eq!(state.edit_buffer, "Build investment agent");
}

#[test]
fn o_on_active_mission_opens_new_human_mission_below() {
    let doc = make_doc();
    let mut state = TrajectoryEditState {
        cursor_section: 0,
        cursor_item: 0,
        ..Default::default()
    };
    let mut doc_mut = doc.clone();
    press(&mut state, &mut doc_mut, key(KeyCode::Char('o')));
    assert_eq!(doc_mut.sections[0].items.len(), 2);
    assert_eq!(doc_mut.sections[0].items[0].text, "Build investment agent");
    assert_eq!(doc_mut.sections[0].items[1].text, "");
    assert_eq!(state.cursor_item, 1);
    assert!(doc_mut.sections[0].items[1].is_checkbox);
    assert!(state.provisional_human_mission);
    assert!(matches!(state.mode, EditMode::Insert { .. }));
}

#[test]
fn o_on_beads_still_inserts_below_cursor() {
    let mut doc = make_doc();
    let mut state = TrajectoryEditState {
        cursor_section: 2,
        cursor_item: 0,
        ..Default::default()
    };

    press(&mut state, &mut doc, key(KeyCode::Char('o')));

    assert_eq!(doc.sections[2].items.len(), 4);
    assert_eq!(doc.sections[2].items[1].text, "");
    assert_eq!(state.cursor_item, 1);
    assert!(matches!(state.mode, EditMode::Insert { .. }));
}

#[test]
fn big_o_inserts_item_above_cursor() {
    let doc = make_doc();
    let mut state = TrajectoryEditState {
        cursor_section: 0,
        cursor_item: 0,
        ..Default::default()
    };
    let mut doc_mut = doc.clone();
    press(&mut state, &mut doc_mut, shift_key('O'));
    assert_eq!(doc_mut.sections[0].items.len(), 2);
    assert_eq!(doc_mut.sections[0].items[0].text, "");
    assert_eq!(state.cursor_item, 0);
}

#[test]
fn o_then_type_then_esc_emits_add_action() {
    let doc = make_doc();
    let mut state = TrajectoryEditState {
        cursor_section: 0,
        cursor_item: 0,
        ..Default::default()
    };
    let mut doc_mut = doc.clone();
    press(&mut state, &mut doc_mut, key(KeyCode::Char('o')));
    state.edit_buffer = "New current mission".to_string();
    let actions = press(&mut state, &mut doc_mut, key(KeyCode::Esc));
    assert!(!actions.is_empty());
    assert_eq!(doc_mut.sections[0].items[0].text, "Build investment agent");
    assert_eq!(doc_mut.sections[0].items[1].text, "[h] New current mission");
    assert!(!state.provisional_human_mission);
}

#[test]
fn o_then_esc_removes_empty_provisional_mission() {
    let mut doc = make_doc();
    let mut state = TrajectoryEditState::default();

    press(&mut state, &mut doc, key(KeyCode::Char('o')));
    assert_eq!(doc.section(SECTION_MISSION).unwrap().items.len(), 2);

    let actions = press(&mut state, &mut doc, key(KeyCode::Esc));

    assert!(actions.is_empty());
    assert_eq!(doc.section(SECTION_MISSION).unwrap().items.len(), 1);
    assert_eq!(
        doc.section(SECTION_MISSION).unwrap().items[0].text,
        "Build investment agent"
    );
}

#[test]
fn x_deletes_current_item_and_emits_delete() {
    let doc = make_doc();
    let mut state = TrajectoryEditState {
        cursor_section: 2, // Tasks
        cursor_item: 0,
        ..Default::default()
    };
    let mut doc_mut = doc.clone();
    let original_text = doc_mut.sections[2].items[0].text.clone();
    let actions = press(&mut state, &mut doc_mut, key(KeyCode::Char('x')));

    assert_eq!(doc_mut.sections[2].items.len(), 2); // was 3, now 2
    assert_eq!(actions.len(), 1);
    if let EditAction::Delete { before, .. } = &actions[0] {
        assert!(before.contains(&original_text));
    } else {
        panic!("expected Delete action, got {:?}", actions[0]);
    }
}

#[test]
fn x_completes_active_mission_without_deleting_it() {
    let mut doc = make_doc();
    let mut state = TrajectoryEditState::default();

    let actions = press(&mut state, &mut doc, key(KeyCode::Char('x')));

    assert!(doc.section(SECTION_MISSION).unwrap().items.is_empty());
    assert_eq!(doc.mission_history.len(), 1);
    assert_eq!(doc.mission_history[0].text, "Build investment agent");
    assert_eq!(doc.mission_history[0].checked, Some(true));
    assert_eq!(state.mission_focus, MissionFocus::HistoryHeader);
    assert!(matches!(actions.as_slice(), [EditAction::Check { .. }]));
}

#[test]
fn uppercase_x_revives_completed_mission() {
    let mut doc = make_doc();
    let mut state = TrajectoryEditState::default();
    press(&mut state, &mut doc, key(KeyCode::Char('x')));
    state.mission_history_expanded = true;
    state.mission_focus = MissionFocus::HistoryItem(0);

    let actions = press(&mut state, &mut doc, shift_key('X'));

    assert!(doc.mission_history.is_empty());
    assert_eq!(doc.section(SECTION_MISSION).unwrap().items.len(), 1);
    assert_eq!(
        doc.section(SECTION_MISSION).unwrap().items[0].checked,
        Some(false)
    );
    assert_eq!(state.mission_focus, MissionFocus::Active);
    assert!(matches!(actions.as_slice(), [EditAction::Uncheck { .. }]));
}

#[test]
fn enter_toggles_mission_history_fold() {
    let mut doc = make_doc();
    let mut state = TrajectoryEditState::default();
    press(&mut state, &mut doc, key(KeyCode::Char('x')));

    press(&mut state, &mut doc, key(KeyCode::Enter));
    assert!(state.mission_history_expanded);
    assert_eq!(state.mission_focus, MissionFocus::HistoryHeader);

    press(&mut state, &mut doc, key(KeyCode::Char('j')));
    assert_eq!(state.mission_focus, MissionFocus::HistoryItem(0));
    press(&mut state, &mut doc, key(KeyCode::Enter));
    assert!(!state.mission_history_expanded);
    assert_eq!(state.mission_focus, MissionFocus::HistoryHeader);
}

#[test]
fn dd_is_a_noop_on_mission_rows() {
    let mut doc = make_doc();
    let mut state = TrajectoryEditState::default();

    assert!(press(&mut state, &mut doc, key(KeyCode::Char('d'))).is_empty());
    assert!(press(&mut state, &mut doc, key(KeyCode::Char('d'))).is_empty());

    assert_eq!(doc.section(SECTION_MISSION).unwrap().items.len(), 1);
    assert!(doc.mission_history.is_empty());
}

#[test]
fn space_toggles_unchecked_to_checked_in_tasks() {
    let doc = make_doc();
    let mut state = TrajectoryEditState {
        cursor_section: 2,
        cursor_item: 1, // sprint-02 (unchecked)
        ..Default::default()
    };
    let mut doc_mut = doc.clone();
    let actions = press(&mut state, &mut doc_mut, key(KeyCode::Char(' ')));

    assert_eq!(doc_mut.sections[2].items[1].checked, Some(true));
    assert_eq!(actions.len(), 1);
    assert!(matches!(actions[0], EditAction::Check { .. }));
}

#[test]
fn space_toggles_checked_to_unchecked() {
    let doc = make_doc();
    let mut state = TrajectoryEditState {
        cursor_section: 2,
        cursor_item: 0, // sprint-01 (checked)
        ..Default::default()
    };
    let mut doc_mut = doc.clone();
    let actions = press(&mut state, &mut doc_mut, key(KeyCode::Char(' ')));

    assert_eq!(doc_mut.sections[2].items[0].checked, Some(false));
    assert!(matches!(actions[0], EditAction::Uncheck { .. }));
}

#[test]
fn space_noop_in_goal_section() {
    let doc = make_doc();
    let mut state = TrajectoryEditState::default(); // Goal section
    let mut doc_mut = doc.clone();
    let actions = press(&mut state, &mut doc_mut, key(KeyCode::Char(' ')));
    assert!(actions.is_empty());
}

#[test]
fn pressing_i_on_empty_goal_section_creates_first_item_and_enters_insert() {
    let mut doc = TrajectoryDoc::default();
    doc.ensure_sections(); // all 3 sections empty
    let mut state = TrajectoryEditState::default();
    state.cursor_section = 0; // Mission
    state.cursor_item = 0;
    let actions = press(&mut state, &mut doc, key(KeyCode::Char('i')));
    assert!(matches!(state.mode, EditMode::Insert { .. }));
    let goal = doc.section("Mission").unwrap();
    assert_eq!(goal.items.len(), 1);
    assert_eq!(goal.items[0].text, "");
    assert!(goal.items[0].is_checkbox);
    assert_eq!(goal.items[0].checked, Some(false));
    // No action yet — actions fire on Esc-commit.
    assert!(actions.is_empty());
}

#[test]
fn pressing_i_on_empty_tasks_section_creates_a_checkbox_item() {
    let mut doc = TrajectoryDoc::default();
    doc.ensure_sections();
    let mut state = TrajectoryEditState::default();
    // section index for "Beads" is 2 in canonical order
    state.cursor_section = 2;
    state.cursor_item = 0;
    press(&mut state, &mut doc, key(KeyCode::Char('i')));
    let tasks = doc.section("Beads").unwrap();
    assert_eq!(tasks.items.len(), 1);
    assert!(tasks.items[0].is_checkbox);
    assert_eq!(tasks.items[0].checked, Some(false));
}

#[test]
fn pressing_o_on_empty_section_creates_first_item() {
    let mut doc = TrajectoryDoc::default();
    doc.ensure_sections();
    let mut state = TrajectoryEditState::default();
    state.cursor_section = 0;
    state.cursor_item = 0;
    press(&mut state, &mut doc, key(KeyCode::Char('o')));
    let goal = doc.section("Mission").unwrap();
    assert_eq!(goal.items.len(), 1);
    assert!(matches!(state.mode, EditMode::Insert { .. }));
}

#[test]
fn cursor_clamps_to_last_item_when_out_of_bounds() {
    let mut doc = TrajectoryDoc::default();
    doc.ensure_sections();
    // Manually populate Goal with 2 items.
    let goal = &mut doc.sections[0];
    goal.items.push(Item {
        text: "first".to_string(),
        is_checkbox: false,
        checked: None,
        surface_id: None,
    });
    goal.items.push(Item {
        text: "second".to_string(),
        is_checkbox: false,
        checked: None,
        surface_id: None,
    });
    let mut state = TrajectoryEditState::default();
    state.cursor_section = 0;
    state.cursor_item = 99; // out of bounds
    press(&mut state, &mut doc, key(KeyCode::Char('i')));
    // Should have clamped to index 1 (last item, "second").
    assert_eq!(state.cursor_item, 1);
    if let EditMode::Insert { .. } = state.mode {
    } else {
        panic!("not in insert mode");
    }
    assert_eq!(state.edit_buffer, "second");
}

#[test]
fn arrow_left_moves_cursor_within_buffer() {
    let mut doc = TrajectoryDoc::default();
    doc.ensure_sections();
    doc.sections[0].items.push(Item {
        text: "hello".to_string(),
        is_checkbox: false,
        checked: None,
        surface_id: None,
    });
    let mut state = TrajectoryEditState::default();
    state.cursor_section = 0;
    state.cursor_item = 0;
    press(&mut state, &mut doc, key(KeyCode::Char('i'))); // enter insert
    assert_eq!(state.cursor_col, 5); // end of "hello"
    press(&mut state, &mut doc, key(KeyCode::Left));
    assert_eq!(state.cursor_col, 4);
}

#[test]
fn arrow_right_clamps_to_buffer_length() {
    let mut doc = TrajectoryDoc::default();
    doc.ensure_sections();
    doc.sections[0].items.push(Item {
        text: "hi".to_string(),
        is_checkbox: false,
        checked: None,
        surface_id: None,
    });
    let mut state = TrajectoryEditState::default();
    state.cursor_section = 0;
    state.cursor_item = 0;
    press(&mut state, &mut doc, key(KeyCode::Char('i')));
    assert_eq!(state.cursor_col, 2); // end of "hi"
    // Right at the end should stay at 2
    press(&mut state, &mut doc, key(KeyCode::Right));
    assert_eq!(state.cursor_col, 2);
}

#[test]
fn home_jumps_to_zero_end_jumps_to_len() {
    let mut doc = TrajectoryDoc::default();
    doc.ensure_sections();
    doc.sections[0].items.push(Item {
        text: "abcde".to_string(),
        is_checkbox: false,
        checked: None,
        surface_id: None,
    });
    let mut state = TrajectoryEditState::default();
    state.cursor_section = 0;
    state.cursor_item = 0;
    press(&mut state, &mut doc, key(KeyCode::Char('i')));
    assert_eq!(state.cursor_col, 5);
    press(&mut state, &mut doc, key(KeyCode::Home));
    assert_eq!(state.cursor_col, 0);
    press(&mut state, &mut doc, key(KeyCode::End));
    assert_eq!(state.cursor_col, 5);
}

#[test]
fn typing_inserts_at_cursor_position() {
    let mut doc = TrajectoryDoc::default();
    doc.ensure_sections();
    doc.sections[0].items.push(Item {
        text: "ac".to_string(),
        is_checkbox: false,
        checked: None,
        surface_id: None,
    });
    let mut state = TrajectoryEditState::default();
    state.cursor_section = 0;
    state.cursor_item = 0;
    press(&mut state, &mut doc, key(KeyCode::Char('i')));
    // cursor is at 2 (end of "ac")
    press(&mut state, &mut doc, key(KeyCode::Left)); // cursor at 1
    press(&mut state, &mut doc, key(KeyCode::Char('b'))); // insert 'b' at col 1
    assert_eq!(state.edit_buffer, "abc");
    assert_eq!(state.cursor_col, 2);
}

#[test]
fn backspace_removes_char_before_cursor() {
    let mut doc = TrajectoryDoc::default();
    doc.ensure_sections();
    doc.sections[0].items.push(Item {
        text: "abc".to_string(),
        is_checkbox: false,
        checked: None,
        surface_id: None,
    });
    let mut state = TrajectoryEditState::default();
    state.cursor_section = 0;
    state.cursor_item = 0;
    press(&mut state, &mut doc, key(KeyCode::Char('i')));
    // cursor at 3 (end of "abc")
    press(&mut state, &mut doc, key(KeyCode::Left)); // cursor at 2
    press(&mut state, &mut doc, key(KeyCode::Backspace)); // removes 'b' (char at col 1)
    assert_eq!(state.edit_buffer, "ac");
    assert_eq!(state.cursor_col, 1);
}

#[test]
fn delete_removes_char_at_cursor() {
    let mut doc = TrajectoryDoc::default();
    doc.ensure_sections();
    doc.sections[0].items.push(Item {
        text: "abc".to_string(),
        is_checkbox: false,
        checked: None,
        surface_id: None,
    });
    let mut state = TrajectoryEditState::default();
    state.cursor_section = 0;
    state.cursor_item = 0;
    press(&mut state, &mut doc, key(KeyCode::Char('i')));
    // cursor at 3
    press(&mut state, &mut doc, key(KeyCode::Left)); // cursor at 2
    press(&mut state, &mut doc, key(KeyCode::Left)); // cursor at 1
    press(&mut state, &mut doc, key(KeyCode::Delete)); // removes 'b' at col 1
    assert_eq!(state.edit_buffer, "ac");
    assert_eq!(state.cursor_col, 1); // cursor didn't move
}

#[test]
fn cursor_handles_utf8_chars() {
    let mut doc = TrajectoryDoc::default();
    doc.ensure_sections();
    doc.sections[0].items.push(Item {
        text: String::new(),
        is_checkbox: false,
        checked: None,
        surface_id: None,
    });
    let mut state = TrajectoryEditState::default();
    state.cursor_section = 0;
    state.cursor_item = 0;
    press(&mut state, &mut doc, key(KeyCode::Char('i')));
    press(&mut state, &mut doc, key(KeyCode::Char('ä')));
    // 'ä' is 2 bytes but 1 char — cursor_col should be 1
    assert_eq!(state.cursor_col, 1);
    assert_eq!(state.edit_buffer, "ä");
    // Verify edit_buffer byte length is > 1 (it's multi-byte UTF-8)
    assert!(state.edit_buffer.len() > 1);
}

#[test]
fn dd_within_one_second_deletes_item() {
    let mut doc = TrajectoryDoc::default();
    doc.ensure_sections();
    doc.sections[2].items.push(Item {
        text: "kill me".to_string(),
        is_checkbox: true,
        checked: Some(false),
        surface_id: None,
    });
    let mut state = TrajectoryEditState {
        cursor_section: 2,
        ..TrajectoryEditState::default()
    };
    press(&mut state, &mut doc, key(KeyCode::Char('d')));
    assert!(state.pending_d_at.is_some());
    assert_eq!(doc.sections[2].items.len(), 1, "first d should NOT delete");
    let actions = press(&mut state, &mut doc, key(KeyCode::Char('d')));
    assert_eq!(doc.sections[2].items.len(), 0);
    assert!(!actions.is_empty()); // delete action emitted
    assert!(state.pending_d_at.is_none());
}

#[test]
fn single_d_does_nothing_destructive() {
    let mut doc = TrajectoryDoc::default();
    doc.ensure_sections();
    doc.sections[0].items.push(Item {
        text: "keep me".to_string(),
        is_checkbox: false,
        checked: None,
        surface_id: None,
    });
    let mut state = TrajectoryEditState::default();
    press(&mut state, &mut doc, key(KeyCode::Char('d')));
    assert_eq!(doc.sections[0].items.len(), 1, "single d should NOT delete");
}

#[test]
fn d_followed_by_non_d_clears_pending() {
    let mut doc = TrajectoryDoc::default();
    doc.ensure_sections();
    doc.sections[0].items.push(Item {
        text: "x".to_string(),
        is_checkbox: false,
        checked: None,
        surface_id: None,
    });
    let mut state = TrajectoryEditState::default();
    press(&mut state, &mut doc, key(KeyCode::Char('d')));
    press(&mut state, &mut doc, key(KeyCode::Char('j'))); // any other key
    assert!(
        state.pending_d_at.is_none(),
        "d-pending should clear on non-d"
    );
}

#[test]
fn x_still_deletes_in_one_keypress() {
    let mut doc = TrajectoryDoc::default();
    doc.ensure_sections();
    doc.sections[0].items.push(Item {
        text: "x".to_string(),
        is_checkbox: false,
        checked: None,
        surface_id: None,
    });
    let mut state = TrajectoryEditState::default();
    press(&mut state, &mut doc, key(KeyCode::Char('x')));
    assert_eq!(doc.sections[0].items.len(), 0);
}

#[test]
fn i_is_blocked_on_current_surfaces_row() {
    let mut doc = TrajectoryDoc::default();
    doc.ensure_sections();
    // Add a fake surface row.
    doc.sections[1].items.push(Item {
        text: "agent · mbp · working · stuff".to_string(),
        is_checkbox: false,
        checked: None,
        surface_id: Some("sid-1".to_string()),
    });
    let mut state = TrajectoryEditState::default();
    state.cursor_section = 1; // Current surfaces
    state.cursor_item = 0;
    let actions = press(&mut state, &mut doc, key(KeyCode::Char('i')));
    assert!(actions.is_empty());
    assert!(
        !matches!(state.mode, EditMode::Insert { .. }),
        "i must NOT enter insert mode on Current surfaces"
    );
}

#[test]
fn x_is_blocked_on_current_surfaces_row() {
    let mut doc = TrajectoryDoc::default();
    doc.ensure_sections();
    doc.sections[1].items.push(Item {
        text: "shell · mbp · idle".to_string(),
        is_checkbox: false,
        checked: None,
        surface_id: Some("sid-1".to_string()),
    });
    let mut state = TrajectoryEditState::default();
    state.cursor_section = 1;
    state.cursor_item = 0;
    press(&mut state, &mut doc, key(KeyCode::Char('x')));
    // Item must still be there.
    assert_eq!(doc.sections[1].items.len(), 1);
}

#[test]
fn dd_is_blocked_on_current_surfaces_row() {
    let mut doc = TrajectoryDoc::default();
    doc.ensure_sections();
    doc.sections[1].items.push(Item {
        text: "shell · mbp · idle".to_string(),
        is_checkbox: false,
        checked: None,
        surface_id: Some("sid-2".to_string()),
    });
    let mut state = TrajectoryEditState::default();
    state.cursor_section = 1;
    state.cursor_item = 0;
    press(&mut state, &mut doc, key(KeyCode::Char('d')));
    let actions = press(&mut state, &mut doc, key(KeyCode::Char('d')));
    // Item must still be there; no delete action.
    assert_eq!(doc.sections[1].items.len(), 1);
    assert!(actions.is_empty());
}

#[test]
fn o_is_blocked_on_current_surfaces_row() {
    let mut doc = TrajectoryDoc::default();
    doc.ensure_sections();
    doc.sections[1].items.push(Item {
        text: "surface".to_string(),
        is_checkbox: false,
        checked: None,
        surface_id: Some("sid-3".to_string()),
    });
    let mut state = TrajectoryEditState::default();
    state.cursor_section = 1;
    state.cursor_item = 0;
    press(&mut state, &mut doc, key(KeyCode::Char('o')));
    // No new item inserted; still in nav mode.
    assert_eq!(doc.sections[1].items.len(), 1);
    assert!(matches!(state.mode, EditMode::Nav));
}

#[test]
fn i_still_works_on_goal_section() {
    let mut doc = TrajectoryDoc::default();
    doc.ensure_sections();
    let mut state = TrajectoryEditState::default();
    state.cursor_section = 0; // Goal
    state.cursor_item = 0;
    press(&mut state, &mut doc, key(KeyCode::Char('i')));
    assert!(matches!(state.mode, EditMode::Insert { .. }));
}

#[test]
fn i_still_works_on_tasks_section() {
    let mut doc = TrajectoryDoc::default();
    doc.ensure_sections();
    let mut state = TrajectoryEditState::default();
    state.cursor_section = 2; // Beads
    state.cursor_item = 0;
    press(&mut state, &mut doc, key(KeyCode::Char('i')));
    assert!(matches!(state.mode, EditMode::Insert { .. }));
}

#[test]
fn cursor_movement_still_works_on_current_surfaces() {
    let mut doc = TrajectoryDoc::default();
    doc.ensure_sections();
    doc.sections[1].items.push(Item {
        text: "a".to_string(),
        is_checkbox: false,
        checked: None,
        surface_id: Some("s1".to_string()),
    });
    doc.sections[1].items.push(Item {
        text: "b".to_string(),
        is_checkbox: false,
        checked: None,
        surface_id: Some("s2".to_string()),
    });
    let mut state = TrajectoryEditState::default();
    state.cursor_section = 1;
    state.cursor_item = 0;
    press(&mut state, &mut doc, key(KeyCode::Char('j')));
    assert_eq!(
        state.cursor_item, 1,
        "j must still move cursor on Current surfaces"
    );
}

#[test]
fn j_traverses_empty_sections() {
    let mut doc = TrajectoryDoc::default();
    doc.ensure_sections(); // all 3 sections present, all empty
    let mut state = TrajectoryEditState::default();
    state.cursor_section = 0; // Goal
    state.cursor_item = 0;
    // j → Current surfaces (still cursor_item = 0)
    press(&mut state, &mut doc, key(KeyCode::Char('j')));
    assert_eq!(state.cursor_section, 1);
    assert_eq!(state.cursor_item, 0);
    // j → Beads
    press(&mut state, &mut doc, key(KeyCode::Char('j')));
    assert_eq!(state.cursor_section, 2);
    // j again clamps at last section
    press(&mut state, &mut doc, key(KeyCode::Char('j')));
    assert_eq!(state.cursor_section, 2);
}

#[test]
fn k_traverses_empty_sections_backward() {
    let mut doc = TrajectoryDoc::default();
    doc.ensure_sections();
    let mut state = TrajectoryEditState::default();
    state.cursor_section = 2;
    state.cursor_item = 0;
    press(&mut state, &mut doc, key(KeyCode::Char('k')));
    assert_eq!(state.cursor_section, 1);
    press(&mut state, &mut doc, key(KeyCode::Char('k')));
    assert_eq!(state.cursor_section, 0);
    // clamp at top
    press(&mut state, &mut doc, key(KeyCode::Char('k')));
    assert_eq!(state.cursor_section, 0);
}

#[test]
fn j_from_last_item_of_goal_lands_on_empty_current_surfaces_header() {
    let mut doc = TrajectoryDoc::default();
    doc.ensure_sections();
    doc.sections[0].items.push(Item {
        text: "g1".to_string(),
        is_checkbox: false,
        checked: None,
        surface_id: None,
    });
    let mut state = TrajectoryEditState::default();
    state.cursor_section = 0;
    state.cursor_item = 0;
    press(&mut state, &mut doc, key(KeyCode::Char('j')));
    // Current surfaces is empty → cursor lands there with item=0
    assert_eq!(state.cursor_section, 1);
    assert_eq!(state.cursor_item, 0);
}

#[test]
fn k_from_first_item_of_tasks_lands_on_empty_current_surfaces_header() {
    let mut doc = TrajectoryDoc::default();
    doc.ensure_sections();
    doc.sections[2].items.push(Item {
        text: "t1".to_string(),
        is_checkbox: true,
        checked: Some(false),
        surface_id: None,
    });
    let mut state = TrajectoryEditState::default();
    state.cursor_section = 2;
    state.cursor_item = 0;
    press(&mut state, &mut doc, key(KeyCode::Char('k')));
    assert_eq!(state.cursor_section, 1);
    assert_eq!(state.cursor_item, 0);
}

#[test]
fn i_on_empty_goal_header_after_j_navigation_still_creates_first_item() {
    let mut doc = TrajectoryDoc::default();
    doc.ensure_sections();
    let mut state = TrajectoryEditState::default();
    state.cursor_section = 0;
    state.cursor_item = 0;
    press(&mut state, &mut doc, key(KeyCode::Char('i')));
    assert!(matches!(state.mode, EditMode::Insert { .. }));
    assert_eq!(doc.sections[0].items.len(), 1);
}

#[test]
fn goal_items_render_to_multi_line_description() {
    let mut doc = TrajectoryDoc::default();
    doc.ensure_sections();
    doc.sections[0].items.push(row("first goal", None));
    doc.sections[0].items.push(row("second refinement", None));
    let desc = mission_description(&doc);
    assert_eq!(desc, "first goal\nsecond refinement");
}

#[test]
fn alt_backspace_deletes_previous_word() {
    let mut doc = TrajectoryDoc::default();
    doc.ensure_sections();
    doc.sections[0].items.push(Item {
        text: "hello world how are you".to_string(),
        is_checkbox: false,
        checked: None,
        surface_id: None,
    });
    let mut state = TrajectoryEditState::default();
    state.cursor_section = 0;
    state.cursor_item = 0;
    press(&mut state, &mut doc, key(KeyCode::Char('i')));
    // cursor_col now at chars().count() == 23 (end of "hello world how are you")
    assert_eq!(state.cursor_col, 23);
    let ev = KeyEvent { code: KeyCode::Backspace, modifiers: KeyModifiers::Alt };
    press(&mut state, &mut doc, ev);
    // Should have deleted "you" — "hello world how are " remains
    assert!(
        state.edit_buffer.ends_with("are "),
        "got: {:?}",
        state.edit_buffer
    );
    assert_eq!(state.cursor_col, state.edit_buffer.chars().count());
}

#[test]
fn alt_backspace_at_col_zero_is_noop() {
    let mut doc = TrajectoryDoc::default();
    doc.ensure_sections();
    doc.sections[0].items.push(Item {
        text: "hello".to_string(),
        is_checkbox: false,
        checked: None,
        surface_id: None,
    });
    let mut state = TrajectoryEditState::default();
    press(&mut state, &mut doc, key(KeyCode::Char('i')));
    state.cursor_col = 0;
    let ev = KeyEvent { code: KeyCode::Backspace, modifiers: KeyModifiers::Alt };
    press(&mut state, &mut doc, ev);
    assert_eq!(state.edit_buffer, "hello");
    assert_eq!(state.cursor_col, 0);
}

#[test]
fn ctrl_a_jumps_to_line_head() {
    let mut doc = TrajectoryDoc::default();
    doc.ensure_sections();
    doc.sections[0].items.push(Item {
        text: "abc".to_string(),
        is_checkbox: false,
        checked: None,
        surface_id: None,
    });
    let mut state = TrajectoryEditState::default();
    press(&mut state, &mut doc, key(KeyCode::Char('i')));
    // cursor at end (3)
    assert_eq!(state.cursor_col, 3);
    let ev = KeyEvent { code: KeyCode::Char('a'), modifiers: KeyModifiers::Control };
    press(&mut state, &mut doc, ev);
    assert_eq!(state.cursor_col, 0);
}

#[test]
fn ctrl_e_jumps_to_line_tail() {
    let mut doc = TrajectoryDoc::default();
    doc.ensure_sections();
    doc.sections[0].items.push(Item {
        text: "abc".to_string(),
        is_checkbox: false,
        checked: None,
        surface_id: None,
    });
    let mut state = TrajectoryEditState::default();
    press(&mut state, &mut doc, key(KeyCode::Char('i')));
    state.cursor_col = 0; // jump to head manually
    let ev = KeyEvent { code: KeyCode::Char('e'), modifiers: KeyModifiers::Control };
    press(&mut state, &mut doc, ev);
    assert_eq!(state.cursor_col, 3);
}

#[test]
fn enter_on_tasks_section_creates_new_item_and_enters_insert() {
    let mut doc = TrajectoryDoc::default();
    doc.ensure_sections();
    // Add one task so the section isn't empty.
    doc.sections[2].items.push(Item {
        text: "first".to_string(),
        is_checkbox: true,
        checked: Some(false),
        surface_id: None,
    });
    let mut state = TrajectoryEditState::default();
    state.cursor_section = 2; // Beads
    state.cursor_item = 0;
    press(&mut state, &mut doc, key(KeyCode::Enter));
    // A new item should exist below "first".
    assert_eq!(doc.sections[2].items.len(), 2);
    assert!(matches!(state.mode, EditMode::Insert { .. }));
    assert_eq!(state.cursor_item, 1); // cursor moved to new item
}

#[test]
fn enter_on_goal_section_edits_current_item() {
    let mut doc = TrajectoryDoc::default();
    doc.ensure_sections();
    doc.sections[0].items.push(Item {
        text: "goal item".to_string(),
        is_checkbox: false,
        checked: None,
        surface_id: None,
    });
    let mut state = TrajectoryEditState::default();
    state.cursor_section = 0;
    state.cursor_item = 0;
    press(&mut state, &mut doc, key(KeyCode::Enter));
    // Goal still has 1 item (we entered insert on the existing one, didn't create new).
    assert_eq!(doc.sections[0].items.len(), 1);
    assert!(matches!(state.mode, EditMode::Insert { .. }));
}

/// Build a doc with N goal items, the last one empty, cursor on the last.
fn doc_with_goals(items: &[&str]) -> TrajectoryDoc {
    let mut doc = TrajectoryDoc::default();
    doc.ensure_sections();
    // Beads is section 2 after ensure_sections.
    for t in items {
        doc.sections[2].items.push(Item {
            text: t.to_string(),
            is_checkbox: true,
            checked: Some(false),
            surface_id: None,
        });
    }
    doc
}

#[test]
fn backspace_on_empty_goal_deletes_and_jumps_to_previous() {
    let mut doc = doc_with_goals(&["sprint-01", "sprint-02", ""]);
    // Enter insert mode on the empty 3rd item.
    let mut state = TrajectoryEditState::default();
    state.cursor_section = 2;
    state.cursor_item = 2;
    press(&mut state, &mut doc, key(KeyCode::Char('i')));
    assert!(matches!(state.mode, EditMode::Insert { .. }));
    assert_eq!(state.edit_buffer, "");

    // Backspace: empty current goal + previous exists → collapse.
    press(&mut state, &mut doc, key(KeyCode::Backspace));

    // The empty item is removed.
    assert_eq!(doc.sections[2].items.len(), 2);
    // Cursor moved to previous item (index 1, "sprint-02").
    assert_eq!(state.cursor_item, 1);
    // Edit buffer holds the previous item's text.
    assert_eq!(state.edit_buffer, "sprint-02");
    // Cursor is at end of previous text.
    assert_eq!(state.cursor_col, "sprint-02".chars().count());
    // Still in insert mode.
    assert!(matches!(state.mode, EditMode::Insert { .. }));
}

#[test]
fn backspace_on_empty_goal_first_item_is_noop() {
    let mut doc = doc_with_goals(&[""]);
    let mut state = TrajectoryEditState::default();
    state.cursor_section = 2;
    state.cursor_item = 0;
    press(&mut state, &mut doc, key(KeyCode::Char('i')));
    assert!(matches!(state.mode, EditMode::Insert { .. }));
    assert_eq!(state.edit_buffer, "");

    press(&mut state, &mut doc, key(KeyCode::Backspace));

    // Item still exists; nothing changed.
    assert_eq!(doc.sections[2].items.len(), 1);
    assert_eq!(state.cursor_item, 0);
    assert_eq!(state.edit_buffer, "");
    // Still in insert mode.
    assert!(matches!(state.mode, EditMode::Insert { .. }));
}

#[test]
fn backspace_on_goal_with_content_acts_as_char_delete() {
    let mut doc = doc_with_goals(&["sprint-01", "abc"]);
    let mut state = TrajectoryEditState::default();
    state.cursor_section = 2;
    state.cursor_item = 1;
    press(&mut state, &mut doc, key(KeyCode::Char('i')));
    assert_eq!(state.edit_buffer, "abc");
    // Move cursor to end.
    state.cursor_col = 3;

    press(&mut state, &mut doc, key(KeyCode::Backspace));

    // Buffer trimmed by one char; no item removed.
    assert_eq!(state.edit_buffer, "ab");
    assert_eq!(state.cursor_col, 2);
    assert_eq!(doc.sections[2].items.len(), 2);
    assert!(matches!(state.mode, EditMode::Insert { .. }));
}

#[test]
fn backspace_on_empty_non_goal_section_is_plain_char_delete() {
    // Mission section (index 0): empty buffer + Backspace should NOT
    // delete the item — the special-case only fires in Beads.
    let mut doc = TrajectoryDoc::default();
    doc.ensure_sections();
    doc.sections[0].items.push(Item {
        text: "first mission".to_string(),
        is_checkbox: false,
        checked: None,
        surface_id: None,
    });
    doc.sections[0].items.push(Item {
        text: "".to_string(),
        is_checkbox: false,
        checked: None,
        surface_id: None,
    });
    let mut state = TrajectoryEditState::default();
    state.cursor_section = 0;
    state.cursor_item = 1;
    press(&mut state, &mut doc, key(KeyCode::Char('i')));
    assert_eq!(state.edit_buffer, "");
    press(&mut state, &mut doc, key(KeyCode::Backspace));
    // Item was NOT removed (Mission isn't Beads).
    assert_eq!(doc.sections[0].items.len(), 2);
    assert_eq!(state.cursor_item, 1);
}

#[test]
fn a_mission_opens_at_the_end_when_the_cursor_is_past_it() {
    let mut doc = TrajectoryDoc::default();
    doc.ensure_sections();
    doc.sections[0].items.push(Item {
        text: "only".to_string(),
        is_checkbox: true,
        checked: Some(false),
        surface_id: None,
    });
    let mut state = TrajectoryEditState { cursor_item: 7, ..Default::default() };
    insert_item_below(&mut state, &mut doc);
    assert_eq!(state.cursor_item, 1);
    assert_eq!(doc.sections[0].items.len(), 2);
    assert_eq!(doc.sections[0].items[1].text, "");
}
