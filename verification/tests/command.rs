//! The command line: editing, completion and hints.
use mission_control::command::{
    longest_common_prefix, CommandLine, CommandTable, StatusLine, TabOutcome,
};

fn table_of(names: &[&str]) -> CommandTable {
    CommandTable { names: names.iter().map(|n| n.to_string()).collect() }
}

fn table() -> CommandTable {
    table_of(&["summarize"])
}

fn typed(text: &str) -> CommandLine {
    let mut cl = CommandLine::new();
    for c in text.chars() {
        cl.insert_char(c);
    }
    cl
}

#[test]
fn insert_and_backspace() {
    let mut cl = CommandLine::new();
    cl.insert_char('s');
    cl.insert_char('u');
    cl.insert_char('m');
    assert_eq!(cl.buffer, "sum");
    assert_eq!(cl.cursor, 3);
    assert!(cl.backspace());
    assert_eq!(cl.buffer, "su");
    assert_eq!(cl.cursor, 2);
}

#[test]
fn backspace_on_empty_returns_false() {
    let mut cl = CommandLine::new();
    assert!(!cl.backspace());
}

#[test]
fn cursor_moves() {
    let mut cl = CommandLine::new();
    for c in "summ".chars() {
        cl.insert_char(c);
    }
    cl.cursor_left();
    assert_eq!(cl.cursor, 3);
    cl.cursor_home();
    assert_eq!(cl.cursor, 0);
    cl.cursor_end();
    assert_eq!(cl.cursor, 4);
    cl.cursor_right();
    assert_eq!(cl.cursor, 4);
}

#[test]
fn tab_unique_match_completes_with_space() {
    let mut cl = CommandLine::new();
    for c in "sum".chars() {
        cl.insert_char(c);
    }
    let outcome = cl.tab(&table());
    assert_eq!(outcome, TabOutcome::Completed("summarize".to_string()));
    assert_eq!(cl.buffer, "summarize ");
    assert_eq!(cl.cursor, 10);
}

#[test]
fn tab_no_match_sets_error_status() {
    let mut cl = CommandLine::new();
    for c in "zzz".chars() {
        cl.insert_char(c);
    }
    let outcome = cl.tab(&table());
    assert_eq!(outcome, TabOutcome::NoMatch);
    assert!(matches!(cl.status, Some(StatusLine::Failed(_))));
}

#[test]
fn ghost_when_unique_prefix() {
    let mut cl = CommandLine::new();
    for c in "sum".chars() {
        cl.insert_char(c);
    }
    assert_eq!(cl.ghost(&table()), "marize");
}

#[test]
fn ghost_empty_when_no_match() {
    let mut cl = CommandLine::new();
    for c in "zzz".chars() {
        cl.insert_char(c);
    }
    assert_eq!(cl.ghost(&table()), "");
}

#[test]
fn ghost_empty_after_space() {
    let mut cl = CommandLine::new();
    for c in "summarize ".chars() {
        cl.insert_char(c);
    }
    assert_eq!(cl.ghost(&table()), "");
}

#[test]
fn backspace_undoes_an_insertion_inside_the_text() {
    let mut cl = typed("aé");
    cl.cursor_left();
    assert_eq!(cl.cursor, 1);
    cl.insert_char('ß');
    assert_eq!(cl.buffer, "aßé");
    assert_eq!(cl.cursor, 3);
    assert!(cl.backspace());
    assert_eq!(cl.buffer, "aé");
    assert_eq!(cl.cursor, 1);
    cl.cursor_right();
    assert_eq!(cl.cursor, 3);
}

#[test]
fn tab_extends_to_the_common_prefix_and_then_lists() {
    let t = table_of(&["refresh", "regen", "reset"]);
    let mut cl = typed("r");
    assert_eq!(cl.tab(&t), TabOutcome::ExtendedPrefix("re".to_string()));
    assert_eq!(cl.buffer, "re");
    let listed = cl.tab(&t);
    assert_eq!(
        listed,
        TabOutcome::ShowMatches(vec![
            "refresh".to_string(),
            "regen".to_string(),
            "reset".to_string()
        ])
    );
}

#[test]
fn a_shown_suffix_completes_the_word() {
    let t = table_of(&["refresh", "quit"]);
    let mut cl = typed("re");
    let ghost = cl.ghost(&t);
    assert_eq!(ghost, "fresh");
    assert_eq!(cl.tab(&t), TabOutcome::Completed("refresh".to_string()));
    assert_eq!(cl.buffer, "refresh ");
}

#[test]
fn a_command_that_is_typed_in_full_still_shows_its_one_extension() {
    let t = table_of(&["sum", "summarize"]);
    assert_eq!(typed("sum").ghost(&t), "marize");
    assert_eq!(typed("su").ghost(&t), "");
    assert_eq!(typed("summarize").ghost(&t), "");
}

#[test]
fn the_common_prefix_of_names() {
    let names = vec!["refresh".to_string(), "regen".to_string()];
    assert_eq!(longest_common_prefix(&names), "re");
    assert_eq!(longest_common_prefix(&Vec::new()), "");
    assert_eq!(longest_common_prefix(&vec!["a".to_string(), "b".to_string()]), "");
}

#[test]
fn a_step_left_and_right_restores_the_cursor() {
    let mut cl = typed("aé→");
    cl.tab_armed = true;
    for cursor in [6, 3, 1] {
        cl.cursor = cursor;
        cl.cursor_left();
        assert!(cl.cursor < cursor);
        cl.cursor_right();
        assert_eq!(cl.cursor, cursor);
    }
    cl.cursor = 6;
    cl.cursor_right();
    assert_eq!(cl.cursor, 6);
    assert!(cl.tab_armed);
}
