//! What holds of editing a trajectory across key presses.
use crate::clock::Moment;
use crate::keys::{KeyCode, KeyEvent, KeyModifiers};
use crate::search::starts_with;
use crate::text::trim;
use crate::trajectory::{
    lemma_section_from, lemma_section_names_differ, section_is, section_named, DocView,
    SECTION_MISSION,
};
use crate::trajectory_edit::{
    clamp, collapses, commit, first_content, human_mission, in_section, insert_defined, insert_key,
    key_defined, key_outcome, last_row, marked_item, move_down, move_up, nav_defined, nav_key,
    on_goals, on_mission, on_surfaces, rows, toggle, toggle_mission, EditMode, EditView,
    InsertFocus, MissionFocus,
};
use vstd::prelude::*;

verus! {

/// The missions, and only they, are the first section.
pub open spec fn canonical(d: DocView) -> bool {
    d.sections.len() > 0 && forall|i: int| #[trigger]
        section_is(d, i, SECTION_MISSION@) ==> i == 0
}

/// The cursor is in a section, on its header when it is empty, and the column
/// is within the text being edited.
pub open spec fn cursor_valid(s: EditView, d: DocView) -> bool {
    &&& in_section(s, d)
    &&& 0 <= s.item
    &&& rows(s, d).len() == 0 ==> s.item == 0
    &&& s.mode is Insert ==> 0 <= s.col <= s.buffer.len()
}

proof fn lemma_first_content_in_range(d: DocView, i: int)
    requires
        d.sections.len() > 0,
    ensures
        0 <= first_content(d, i) < d.sections.len(),
    decreases d.sections.len() - i,
{
    if 0 <= i < d.sections.len() {
        lemma_first_content_in_range(d, i + 1);
    }
}

proof fn lemma_last_row_in_range(d: DocView, n: int)
    requires
        0 < d.sections.len(),
        n <= d.sections.len(),
    ensures
        0 <= last_row(d, n).0 < d.sections.len(),
        d.sections[last_row(d, n).0].items.len() == 0 ==> last_row(d, n).1 == 0,
        0 <= last_row(d, n).1,
    decreases n,
{
    if n > 0 {
        lemma_last_row_in_range(d, n - 1);
    }
}

proof fn lemma_mission_is_first(d: DocView)
    requires
        canonical(d),
        section_is(d, 0, SECTION_MISSION@),
    ensures
        section_named(d, SECTION_MISSION@) == Some(0int),
{
    lemma_section_from(d, SECTION_MISSION@, 0);
}

#[verifier::rlimit(60)]
proof fn lemma_nav_keeps_valid(s: EditView, d: DocView, code: KeyCode, now: Moment)
    requires
        canonical(d),
        s.mode == EditMode::Nav,
        cursor_valid(s, d),
        clamp(s, d) == s,
    ensures
        nav_defined(s, d, code),
        cursor_valid(nav_key(s, d, code, now).state, nav_key(s, d, code, now).doc),
        canonical(nav_key(s, d, code, now).doc),
{
    lemma_section_names_differ();
    lemma_first_content_in_range(d, 0);
    lemma_last_row_in_range(d, d.sections.len() as int);
    if on_mission(s, d) {
        lemma_mission_is_first(d);
    }
    let o = nav_key(s, d, code, now);
    assert forall|i: int| #[trigger] section_is(o.doc, i, SECTION_MISSION@) implies i == 0 by {
        assert(section_is(d, i, SECTION_MISSION@));
    }
}

proof fn lemma_insert_keeps_valid(s: EditView, d: DocView, key: KeyEvent, focus: InsertFocus)
    requires
        canonical(d),
        s.mode == (EditMode::Insert { focus }),
        cursor_valid(s, d),
        s.buffer.len() < usize::MAX,
    ensures
        insert_defined(s, key, focus),
        cursor_valid(insert_key(s, d, key, focus).state, insert_key(s, d, key, focus).doc),
        canonical(insert_key(s, d, key, focus).doc),
{
    lemma_section_names_differ();
    let o = insert_key(s, d, key, focus);
    crate::trajectory_edit::lemma_word_before_bounds(s.buffer, s.col);
    assert forall|i: int| #[trigger] section_is(o.doc, i, SECTION_MISSION@) implies i == 0 by {
        assert(section_is(d, i, SECTION_MISSION@));
    }
}

/// No key press takes the cursor off the document: from a valid cursor every
/// key has a meaning and leaves a valid cursor.
pub proof fn keys_keep_the_cursor_valid(s: EditView, d: DocView, key: KeyEvent, now: Moment)
    requires
        canonical(d),
        cursor_valid(s, d),
        s.buffer.len() < usize::MAX,
    ensures
        key_defined(s, d, key),
        cursor_valid(key_outcome(s, d, key, now).state, key_outcome(s, d, key, now).doc),
        canonical(key_outcome(s, d, key, now).doc),
{
    match s.mode {
        EditMode::Nav => {
            crate::trajectory_edit::lemma_clamp_idempotent(s, d);
            lemma_nav_keeps_valid(clamp(s, d), d, key.code, now);
        },
        EditMode::Insert { focus } => {
            lemma_insert_keeps_valid(s, d, key, focus);
        },
    }
}

/// One key press reports at most one change.
pub proof fn a_key_reports_at_most_one_change(s: EditView, d: DocView, key: KeyEvent, now: Moment)
    ensures
        key_outcome(s, d, key, now).actions.len() <= 1,
{
}

/// The rows of open surfaces belong to the refresh: with the cursor on them no
/// navigation key changes the document or reports a change.
pub proof fn surfaces_are_read_only(s: EditView, d: DocView, code: KeyCode, now: Moment)
    requires
        on_surfaces(s, d),
    ensures
        nav_key(s, d, code, now).doc == d,
        nav_key(s, d, code, now).actions.len() == 0,
{
    lemma_section_names_differ();
}

/// Flipping a checkbox twice restores the document.
pub proof fn toggling_twice_restores(s: EditView, d: DocView)
    requires
        on_goals(s, d),
        0 <= s.item < rows(s, d).len(),
        rows(s, d)[s.item].is_checkbox,
        rows(s, d)[s.item].checked is Some,
    ensures
        toggle(s, d).doc != d,
        toggle(s, toggle(s, d).doc).doc == d,
{
    let once = toggle(s, d).doc;
    let twice = toggle(s, once).doc;
    assert(once.sections[s.section].items[s.item].checked != d.sections[s.section].items[s.item].checked);
    assert(on_goals(s, once));
    assert(twice.sections[s.section].items[s.item] =~= d.sections[s.section].items[s.item]);
    assert(twice.sections[s.section].items =~= d.sections[s.section].items);
    assert(twice.sections =~= d.sections);
}

/// Moving a row down and up again restores the document and the cursor.
pub proof fn moving_down_and_up_restores(s: EditView, d: DocView)
    requires
        in_section(s, d),
        0 <= s.item,
        s.item + 1 < rows(s, d).len(),
    ensures
        move_up(move_down(s, d).state, move_down(s, d).doc).doc == d,
        move_up(move_down(s, d).state, move_down(s, d).doc).state == s,
{
    let o = move_down(s, d);
    let back = move_up(o.state, o.doc);
    assert(back.doc.sections[s.section].items =~= d.sections[s.section].items);
    assert(back.doc.sections =~= d.sections);
    assert(back.state =~= s);
}

/// Completing a mission never deletes it: it is appended, ticked, to the
/// history, and every other mission stays.
pub proof fn completing_keeps_the_mission(s: EditView, d: DocView)
    requires
        canonical(d),
        on_mission(s, d),
        s.focus == MissionFocus::Active,
        0 <= s.item < rows(s, d).len(),
    ensures
        ({
            let o = toggle_mission(s, d);
            &&& o.doc.mission_history == d.mission_history.push(
                marked_item(rows(s, d)[s.item], true),
            )
            &&& o.doc.sections[s.section].items == rows(s, d).remove(s.item)
            &&& o.actions.len() == 1
        }),
{
    lemma_mission_is_first(d);
}

/// Reviving the mission just completed brings the history back as it was and
/// the mission back, unticked, as the last active one.
pub proof fn reviving_undoes_completing(s: EditView, d: DocView)
    requires
        canonical(d),
        on_mission(s, d),
        s.focus == MissionFocus::Active,
        0 <= s.item < rows(s, d).len(),
        d.mission_history.len() <= usize::MAX,
    ensures
        ({
            let o = toggle_mission(s, d);
            let on_it = EditView {
                focus: MissionFocus::HistoryItem(d.mission_history.len() as usize),
                expanded: true,
                ..o.state
            };
            let back = toggle_mission(on_it, o.doc);
            &&& back.doc.mission_history == d.mission_history
            &&& back.doc.sections[s.section].items == rows(s, d).remove(s.item).push(
                marked_item(rows(s, d)[s.item], false),
            )
            &&& back.state.item == rows(s, d).len() - 1
            &&& back.state.focus == MissionFocus::Active
        }),
{
    lemma_mission_is_first(d);
    let o = toggle_mission(s, d);
    assert(section_is(o.doc, 0, SECTION_MISSION@));
    lemma_section_from(o.doc, SECTION_MISSION@, 0);
    let h = d.mission_history.len() as int;
    assert(o.doc.mission_history.remove(h) =~= d.mission_history);
}

/// A typed character and a backspace after it cancel out, unless the row has
/// meanwhile become a blank goal that collapses into the one above.
pub proof fn backspace_undoes_typing(s: EditView, d: DocView, c: char)
    requires
        0 <= s.col <= s.buffer.len(),
        !collapses(
            insert_key(
                s,
                d,
                KeyEvent { code: KeyCode::Char(c), modifiers: KeyModifiers::Plain },
                InsertFocus::Item,
            ).state,
            d,
        ),
    ensures
        ({
            let typed = insert_key(
                s,
                d,
                KeyEvent { code: KeyCode::Char(c), modifiers: KeyModifiers::Plain },
                InsertFocus::Item,
            );
            let erased = insert_key(
                typed.state,
                typed.doc,
                KeyEvent { code: KeyCode::Backspace, modifiers: KeyModifiers::Plain },
                InsertFocus::Item,
            );
            erased.state == s && erased.doc == d
        }),
{
    assert(s.buffer.insert(s.col, c).remove(s.col) =~= s.buffer);
}

/// Leaving insert mode without a change of text changes nothing and reports
/// nothing.
pub proof fn unchanged_text_is_no_edit(s: EditView, d: DocView)
    requires
        !s.provisional,
        s.start_text == Some(s.buffer),
    ensures
        commit(s, d).doc == d,
        commit(s, d).actions.len() == 0,
{
}

/// A mission written by hand always bears the user's mark.
pub proof fn human_missions_are_marked(text: Seq<char>)
    ensures
        starts_with(human_mission(text), "[h]"@),
{
    reveal_strlit("[h]");
    reveal_strlit("[h] ");
    let t = trim(text);
    if !starts_with(t, "[h]"@) {
        assert(human_mission(text).subrange(0, 3) =~= "[h]"@);
    }
}

} // verus!
