//! What each key does to the rows under the cursor, said of the rows themselves.
use crate::clock::{Moment, NANOS_PER_SEC};
use crate::keys::{KeyCode, KeyEvent, KeyModifiers};
use crate::search::starts_with;
use crate::text::{is_space, trim};
use crate::trajectory::{
    lemma_section_from, lemma_section_names_differ, DocView, ItemView, SECTION_CURRENT_SURFACES,
    SECTION_GOALS, SECTION_MISSION,
};
use crate::trajectory_edit::{
    display, first_content, key_outcome, last_row, spaces_start, word_before, word_start,
    ActionView, EditMode, EditView, InsertFocus, MissionFocus,
};
use vstd::prelude::*;

verus! {

// ---------------------------------------------------------------------------
// Rows
// ---------------------------------------------------------------------------

/// In navigation mode, the cursor is on a row: not on the folded missions.
pub open spec fn on_row(s: EditView, d: DocView) -> bool {
    &&& s.mode == EditMode::Nav
    &&& 0 <= s.section < d.sections.len()
    &&& 0 <= s.item < d.sections[s.section].items.len()
    &&& d.sections[s.section].name == SECTION_MISSION@ ==> s.focus == MissionFocus::Active
}

/// The user may change the rows of the cursor's section.
pub open spec fn on_own_row(s: EditView, d: DocView) -> bool {
    on_row(s, d) && d.sections[s.section].name != SECTION_CURRENT_SURFACES@
}

/// Two documents differ in the rows of section `k` at most.
pub open spec fn same_but_rows(d: DocView, e: DocView, k: int) -> bool {
    &&& e.workspace == d.workspace
    &&& e.snapshot == d.snapshot
    &&& e.mission_history == d.mission_history
    &&& e.sections.len() == d.sections.len()
    &&& e.sections[k].name == d.sections[k].name
    &&& forall|j: int| 0 <= j < d.sections.len() && j != k ==> (#[trigger] e.sections[j])
        == d.sections[j]
}

/// `after` is `before` without the entry at `i`.
pub open spec fn lacks(before: Seq<ItemView>, after: Seq<ItemView>, i: int) -> bool {
    &&& after.len() == before.len() - 1
    &&& forall|j: int| 0 <= j < i ==> (#[trigger] after[j]) == before[j]
    &&& forall|j: int| i <= j < after.len() ==> (#[trigger] after[j]) == before[j + 1]
}

/// `after` is `before` with a row put in at `i`.
pub open spec fn gains(before: Seq<ItemView>, after: Seq<ItemView>, i: int) -> bool {
    &&& after.len() == before.len() + 1
    &&& forall|j: int| 0 <= j < i ==> (#[trigger] after[j]) == before[j]
    &&& forall|j: int| i < j < after.len() ==> (#[trigger] after[j]) == before[j - 1]
}

/// A row is written with its box: ticked exactly when it is checked. A row without a
/// box is a plain bullet.
pub proof fn a_row_is_written_with_its_box(item: ItemView, text: Seq<char>)
    ensures
        item.is_checkbox && item.checked == Some(true) ==> display(item, text) == "- [x] "@ + text,
        item.is_checkbox && item.checked != Some(true) ==> display(item, text) == "- [ ] "@ + text,
        !item.is_checkbox ==> display(item, text) == "- "@ + text,
{
}

// ---------------------------------------------------------------------------
// Moving rows
// ---------------------------------------------------------------------------

/// `K` exchanges the row under the cursor with the one above it; the cursor follows the
/// row, no other row is touched, and the move is reported. The first row stays.
pub proof fn upper_k_moves_the_row_up(s: EditView, d: DocView, key: KeyEvent, now: Moment)
    requires
        on_own_row(s, d),
        key.code == KeyCode::Char('K'),
    ensures
        ({
            let o = key_outcome(s, d, key, now);
            let before = d.sections[s.section].items;
            let after = o.doc.sections[s.section].items;
            let i = s.item;
            &&& same_but_rows(d, o.doc, s.section)
            &&& o.state.section == s.section
            &&& o.state.mode == EditMode::Nav
            &&& i == 0 ==> o.doc == d && o.state.item == 0 && o.actions.len() == 0
            &&& i > 0 ==> {
                &&& after.len() == before.len()
                &&& after[i - 1] == before[i]
                &&& after[i] == before[i - 1]
                &&& forall|j: int|
                    0 <= j < before.len() && j != i && j != i - 1 ==> (#[trigger] after[j])
                        == before[j]
                &&& o.state.item == i - 1
                &&& o.actions == seq![
                    ActionView::Move {
                        section: d.sections[s.section].name,
                        before: display(before[i], before[i].text),
                    },
                ]
            }
        }),
{
}

/// `J` exchanges the row under the cursor with the one below it; the cursor follows the
/// row, no other row is touched, and the move is reported. The last row stays.
pub proof fn upper_j_moves_the_row_down(s: EditView, d: DocView, key: KeyEvent, now: Moment)
    requires
        on_own_row(s, d),
        key.code == KeyCode::Char('J'),
    ensures
        ({
            let o = key_outcome(s, d, key, now);
            let before = d.sections[s.section].items;
            let after = o.doc.sections[s.section].items;
            let i = s.item;
            &&& same_but_rows(d, o.doc, s.section)
            &&& o.state.section == s.section
            &&& o.state.mode == EditMode::Nav
            &&& i + 1 == before.len() ==> o.doc == d && o.state.item == i && o.actions.len() == 0
            &&& i + 1 < before.len() ==> {
                &&& after.len() == before.len()
                &&& after[i + 1] == before[i]
                &&& after[i] == before[i + 1]
                &&& forall|j: int|
                    0 <= j < before.len() && j != i && j != i + 1 ==> (#[trigger] after[j])
                        == before[j]
                &&& o.state.item == i + 1
                &&& o.actions == seq![
                    ActionView::Move {
                        section: d.sections[s.section].name,
                        before: display(before[i], before[i].text),
                    },
                ]
            }
        }),
{
}

// ---------------------------------------------------------------------------
// Ticking
// ---------------------------------------------------------------------------

/// Space flips the box of the goal under the cursor and nothing else, and reports a
/// check when it is ticked now and an uncheck when it is not. Elsewhere it does nothing.
pub proof fn space_flips_the_goals_box(s: EditView, d: DocView, key: KeyEvent, now: Moment)
    requires
        on_row(s, d),
        key.code == KeyCode::Char(' '),
    ensures
        ({
            let o = key_outcome(s, d, key, now);
            let before = d.sections[s.section].items;
            let after = o.doc.sections[s.section].items;
            let i = s.item;
            let ticked = before[i].checked == Some(true);
            let flips = d.sections[s.section].name == SECTION_GOALS@ && before[i].is_checkbox;
            &&& same_but_rows(d, o.doc, s.section)
            &&& o.state.section == s.section
            &&& o.state.item == i
            &&& o.state.mode == EditMode::Nav
            &&& !flips ==> o.doc == d && o.actions.len() == 0
            &&& flips ==> {
                &&& after.len() == before.len()
                &&& forall|j: int|
                    0 <= j < before.len() && j != i ==> (#[trigger] after[j]) == before[j]
                &&& after[i].checked == Some(!ticked)
                &&& after[i].text == before[i].text
                &&& after[i].surface_id == before[i].surface_id
                &&& after[i].is_checkbox
                &&& o.actions.len() == 1
                &&& !ticked ==> o.actions[0] == (ActionView::Check {
                    section: SECTION_GOALS@,
                    before: display(before[i], before[i].text),
                    after: display(after[i], after[i].text),
                })
                &&& ticked ==> o.actions[0] == (ActionView::Uncheck {
                    section: SECTION_GOALS@,
                    before: display(before[i], before[i].text),
                    after: display(after[i], after[i].text),
                })
            }
        }),
{
    lemma_section_names_differ();
}

/// `x` on an active mission takes it out of the missions and puts it, ticked, at the end
/// of the history; the report shows it unticked or ticked as it was and ticked as it is.
/// The cursor stays among the missions, or goes to the history when none is left.
pub proof fn x_completes_the_mission(s: EditView, d: DocView, key: KeyEvent, now: Moment)
    requires
        on_row(s, d),
        d.sections[s.section].name == SECTION_MISSION@,
        forall|j: int| 0 <= j < s.section ==> (#[trigger] d.sections[j]).name != SECTION_MISSION@,
        key.code == KeyCode::Char('x') || key.code == KeyCode::Char('X'),
    ensures
        ({
            let o = key_outcome(s, d, key, now);
            let before = d.sections[s.section].items;
            let after = o.doc.sections[s.section].items;
            let history = o.doc.mission_history;
            let i = s.item;
            let n = d.mission_history.len() as int;
            &&& lacks(before, after, i)
            &&& history.len() == n + 1
            &&& forall|j: int| 0 <= j < n ==> (#[trigger] history[j]) == d.mission_history[j]
            &&& history[n].text == before[i].text
            &&& history[n].surface_id == before[i].surface_id
            &&& history[n].is_checkbox
            &&& history[n].checked == Some(true)
            &&& forall|j: int|
                0 <= j < d.sections.len() && j != s.section ==> (#[trigger] o.doc.sections[j])
                    == d.sections[j]
            &&& o.actions == seq![
                ActionView::Check {
                    section: SECTION_MISSION@,
                    before: display(before[i], before[i].text),
                    after: "- [x] "@ + before[i].text,
                },
            ]
            &&& o.state.section == s.section
            &&& o.state.mode == EditMode::Nav
            &&& after.len() == 0 ==> o.state.focus == MissionFocus::HistoryHeader
            &&& after.len() > 0 ==> o.state.focus == MissionFocus::Active && o.state.item == (
            if i < after.len() {
                i
            } else {
                i - 1
            })
        }),
{
    lemma_section_names_differ();
    lemma_section_from(d, SECTION_MISSION@, 0);
}

/// `x` on a mission in the unfolded history takes it out of the history and puts it,
/// not ticked, at the end of the missions, where the cursor goes. An empty history folds.
pub proof fn x_revives_the_mission(
    s: EditView,
    d: DocView,
    k: usize,
    key: KeyEvent,
    now: Moment,
)
    requires
        s.mode == EditMode::Nav,
        0 <= s.section < d.sections.len(),
        d.sections[s.section].name == SECTION_MISSION@,
        forall|j: int| 0 <= j < s.section ==> (#[trigger] d.sections[j]).name != SECTION_MISSION@,
        s.focus == MissionFocus::HistoryItem(k),
        s.expanded,
        k < d.mission_history.len(),
        key.code == KeyCode::Char('x') || key.code == KeyCode::Char('X'),
    ensures
        ({
            let o = key_outcome(s, d, key, now);
            let before = d.sections[s.section].items;
            let after = o.doc.sections[s.section].items;
            let n = before.len() as int;
            let item = d.mission_history[k as int];
            &&& lacks(d.mission_history, o.doc.mission_history, k as int)
            &&& after.len() == n + 1
            &&& forall|j: int| 0 <= j < n ==> (#[trigger] after[j]) == before[j]
            &&& after[n].text == item.text
            &&& after[n].surface_id == item.surface_id
            &&& after[n].is_checkbox
            &&& after[n].checked == Some(false)
            &&& forall|j: int|
                0 <= j < d.sections.len() && j != s.section ==> (#[trigger] o.doc.sections[j])
                    == d.sections[j]
            &&& o.state.focus == MissionFocus::Active
            &&& o.state.section == s.section
            &&& o.state.item == n
            &&& o.state.expanded == (d.mission_history.len() > 1)
            &&& o.actions == seq![
                ActionView::Uncheck {
                    section: SECTION_MISSION@,
                    before: display(item, item.text),
                    after: "- [ ] "@ + item.text,
                },
            ]
        }),
{
    lemma_section_names_differ();
    lemma_section_from(d, SECTION_MISSION@, 0);
}

/// On the header of the history, `x` changes nothing.
pub proof fn x_on_the_history_header_does_nothing(
    s: EditView,
    d: DocView,
    key: KeyEvent,
    now: Moment,
)
    requires
        s.mode == EditMode::Nav,
        0 <= s.section < d.sections.len(),
        d.sections[s.section].name == SECTION_MISSION@,
        s.focus == MissionFocus::HistoryHeader,
        key.code == KeyCode::Char('x') || key.code == KeyCode::Char('X'),
    ensures
        key_outcome(s, d, key, now).doc == d,
        key_outcome(s, d, key, now).actions.len() == 0,
{
    lemma_section_names_differ();
}

// ---------------------------------------------------------------------------
// Deleting
// ---------------------------------------------------------------------------

/// The row under the cursor is gone, every other row is kept in order, the deletion is
/// reported, and the cursor is on the row that followed, or on the last one.
pub open spec fn row_deleted(s: EditView, d: DocView, key: KeyEvent, now: Moment) -> bool {
    let o = key_outcome(s, d, key, now);
    let before = d.sections[s.section].items;
    let after = o.doc.sections[s.section].items;
    let i = s.item;
    &&& same_but_rows(d, o.doc, s.section)
    &&& lacks(before, after, i)
    &&& o.actions == seq![
        ActionView::Delete {
            section: d.sections[s.section].name,
            before: display(before[i], before[i].text),
        },
    ]
    &&& o.state.mode == EditMode::Nav
    &&& o.state.section == s.section
    &&& o.state.item == if i < after.len() || i == 0 {
        i
    } else {
        i - 1
    }
}

/// `x` deletes the row under the cursor where it is neither a mission nor a surface.
pub proof fn x_deletes_the_row(s: EditView, d: DocView, key: KeyEvent, now: Moment)
    requires
        on_own_row(s, d),
        d.sections[s.section].name != SECTION_MISSION@,
        key.code == KeyCode::Char('x') || key.code == KeyCode::Char('X'),
    ensures
        row_deleted(s, d, key, now),
{
}

/// `d` deletes the row under the cursor when another `d` came within a second before it,
/// and otherwise only starts that second. Missions are never deleted so.
pub proof fn a_second_d_deletes_the_row(s: EditView, d: DocView, key: KeyEvent, now: Moment)
    requires
        on_own_row(s, d),
        key.code == KeyCode::Char('d'),
    ensures
        ({
            let o = key_outcome(s, d, key, now);
            let mission = d.sections[s.section].name == SECTION_MISSION@;
            let again = s.pending_d is Some && now.nanos - s.pending_d.unwrap().nanos
                <= NANOS_PER_SEC;
            &&& mission ==> o.doc == d && o.actions.len() == 0 && o.state.pending_d is None
            &&& !mission && again ==> row_deleted(s, d, key, now) && o.state.pending_d is None
            &&& !mission && !again ==> o.doc == d && o.actions.len() == 0 && o.state.pending_d
                == Some(now) && o.state.item == s.item && o.state.section == s.section
        }),
{
    lemma_section_names_differ();
}

/// A first `d` is forgotten as soon as another key follows in navigation mode.
pub proof fn another_key_forgets_a_first_d(s: EditView, d: DocView, key: KeyEvent, now: Moment)
    requires
        s.mode == EditMode::Nav,
        key.code != KeyCode::Char('d'),
    ensures
        key_outcome(s, d, key, now).state.pending_d is None,
{
}

// ---------------------------------------------------------------------------
// Opening rows
// ---------------------------------------------------------------------------

/// A blank row was opened for writing at `at` of the cursor's section: every other row
/// is kept in order, and what is typed next goes into the new one.
pub open spec fn row_opened(s: EditView, d: DocView, key: KeyEvent, now: Moment, at: int) -> bool {
    let o = key_outcome(s, d, key, now);
    let name = d.sections[s.section].name;
    let before = d.sections[s.section].items;
    let after = o.doc.sections[s.section].items;
    let boxed = name == SECTION_MISSION@ || name == SECTION_GOALS@;
    &&& same_but_rows(d, o.doc, s.section)
    &&& gains(before, after, at)
    &&& after[at].text.len() == 0
    &&& after[at].surface_id is None
    &&& after[at].is_checkbox == boxed
    &&& after[at].checked == if boxed {
        Some(false)
    } else {
        None
    }
    &&& o.actions.len() == 0
    &&& o.state.mode == (EditMode::Insert { focus: InsertFocus::Item })
    &&& o.state.section == s.section
    &&& o.state.item == at
    &&& o.state.buffer.len() == 0
    &&& o.state.col == 0
    &&& o.state.context.len() == 0
    &&& o.state.start_text is Some
    &&& o.state.start_text.unwrap().len() == 0
    &&& o.state.provisional == (name == SECTION_MISSION@)
}

/// `o` opens a row below the cursor's, and `O` one above it.
pub proof fn o_opens_a_row(s: EditView, d: DocView, key: KeyEvent, now: Moment)
    requires
        on_own_row(s, d),
    ensures
        key.code == KeyCode::Char('o') ==> row_opened(s, d, key, now, s.item + 1),
        key.code == KeyCode::Char('O') ==> row_opened(s, d, key, now, s.item),
        key.code == KeyCode::Enter && d.sections[s.section].name == SECTION_GOALS@ ==> row_opened(
            s,
            d,
            key,
            now,
            s.item + 1,
        ),
{
    lemma_section_names_differ();
}

/// In an empty section of goals, `o`, `O`, `i` and Enter open its first row.
pub proof fn an_empty_section_gets_its_first_row(
    s: EditView,
    d: DocView,
    key: KeyEvent,
    now: Moment,
)
    requires
        s.mode == EditMode::Nav,
        0 <= s.section < d.sections.len(),
        d.sections[s.section].name == SECTION_GOALS@,
        d.sections[s.section].items.len() == 0,
        key.code == KeyCode::Char('o') || key.code == KeyCode::Char('O') || key.code
            == KeyCode::Char('i') || key.code == KeyCode::Enter,
    ensures
        row_opened(s, d, key, now, 0),
{
    lemma_section_names_differ();
}

/// `i`, and Enter outside of the goals, edit the row under the cursor: the document is
/// unchanged, and the row's text is in the buffer with the cursor behind it.
pub proof fn i_edits_the_row(s: EditView, d: DocView, key: KeyEvent, now: Moment)
    requires
        on_own_row(s, d),
        key.code == KeyCode::Char('i') || key.code == KeyCode::Enter
            && d.sections[s.section].name != SECTION_GOALS@,
    ensures
        ({
            let o = key_outcome(s, d, key, now);
            let text = d.sections[s.section].items[s.item].text;
            &&& o.doc == d
            &&& o.actions.len() == 0
            &&& o.state.mode == (EditMode::Insert { focus: InsertFocus::Item })
            &&& o.state.section == s.section
            &&& o.state.item == s.item
            &&& o.state.buffer == text
            &&& o.state.start_text == Some(text)
            &&& o.state.col == text.len()
            &&& o.state.context.len() == 0
            &&& !o.state.provisional
        }),
{
    lemma_section_names_differ();
}

/// Enter on the history's header unfolds or folds it, and on one of its missions folds
/// it, with the cursor on the header.
pub proof fn enter_folds_the_history(s: EditView, d: DocView, key: KeyEvent, now: Moment)
    requires
        s.mode == EditMode::Nav,
        0 <= s.section < d.sections.len(),
        d.sections[s.section].name == SECTION_MISSION@,
        key.code == KeyCode::Enter,
        d.mission_history.len() > 0,
    ensures
        ({
            let o = key_outcome(s, d, key, now);
            &&& s.focus == MissionFocus::HistoryHeader ==> o.state.expanded == !s.expanded
                && o.state.focus == MissionFocus::HistoryHeader
            &&& s.focus is HistoryItem && s.expanded ==> !o.state.expanded && o.state.focus
                == MissionFocus::HistoryHeader
            &&& s.focus != MissionFocus::Active ==> o.doc == d && o.actions.len() == 0
                && o.state.mode == EditMode::Nav
        }),
{
    lemma_section_names_differ();
}

/// On the folded missions and on open surfaces, no key opens, edits or moves a row.
pub proof fn folded_missions_and_surfaces_are_not_written(
    s: EditView,
    d: DocView,
    key: KeyEvent,
    now: Moment,
)
    requires
        s.mode == EditMode::Nav,
        0 <= s.section < d.sections.len(),
        d.sections[s.section].name == SECTION_CURRENT_SURFACES@
            || d.sections[s.section].name == SECTION_MISSION@ && s.focus != MissionFocus::Active,
        key.code != KeyCode::Char('x') && key.code != KeyCode::Char('X')
            || d.sections[s.section].name == SECTION_CURRENT_SURFACES@,
    ensures
        key_outcome(s, d, key, now).doc == d,
        key_outcome(s, d, key, now).actions.len() == 0,
        key_outcome(s, d, key, now).state.mode == EditMode::Nav,
{
    lemma_section_names_differ();
}

// ---------------------------------------------------------------------------
// Moving the cursor
// ---------------------------------------------------------------------------

/// Keys that move the cursor change no row and report nothing; the arrows do what the
/// letters do.
pub proof fn moving_the_cursor_changes_no_row(s: EditView, d: DocView, key: KeyEvent, now: Moment)
    requires
        s.mode == EditMode::Nav,
        key.code == KeyCode::Char('j') || key.code == KeyCode::Char('k') || key.code
            == KeyCode::Char('g') || key.code == KeyCode::Char('G') || key.code == KeyCode::Down
            || key.code == KeyCode::Up,
    ensures
        key_outcome(s, d, key, now).doc == d,
        key_outcome(s, d, key, now).actions.len() == 0,
        key_outcome(s, d, key, now).state.mode == EditMode::Nav,
        key_outcome(s, d, key, now).state.expanded == s.expanded,
        key.code == KeyCode::Down ==> key_outcome(s, d, key, now) == key_outcome(
            s,
            d,
            KeyEvent { code: KeyCode::Char('j'), ..key },
            now,
        ),
        key.code == KeyCode::Up ==> key_outcome(s, d, key, now) == key_outcome(
            s,
            d,
            KeyEvent { code: KeyCode::Char('k'), ..key },
            now,
        ),
{
}

/// `j` goes to the row below. From the last row it goes to the first of the next section,
/// or its header; from the last mission first through the history, if there is one. At
/// the very end it stays.
pub proof fn j_goes_down(s: EditView, d: DocView, key: KeyEvent, now: Moment)
    requires
        on_row(s, d),
        key.code == KeyCode::Char('j'),
    ensures
        ({
            let t = key_outcome(s, d, key, now).state;
            let n = d.sections[s.section].items.len();
            let mission = d.sections[s.section].name == SECTION_MISSION@;
            let last = s.item + 1 == n;
            &&& !last ==> t.section == s.section && t.item == s.item + 1 && t.focus == s.focus
            &&& last && mission && d.mission_history.len() > 0 ==> t.section == s.section
                && t.focus == MissionFocus::HistoryHeader
            &&& last && !mission && s.section + 1 < d.sections.len() ==> t.section == s.section + 1
                && t.item == 0
            &&& last && mission && s.section == 0 && d.mission_history.len() == 0
                && d.sections.len() > 1 ==> t.section == 1 && t.item == 0
            &&& last && !mission && s.section + 1 == d.sections.len() ==> t.section == s.section
                && t.item == s.item
        }),
{
}

/// Within the history `j` goes from the header to its first mission, if it is unfolded,
/// from one mission to the next, and from the last one to the next section.
pub proof fn j_goes_through_the_history(s: EditView, d: DocView, key: KeyEvent, now: Moment)
    requires
        s.mode == EditMode::Nav,
        s.section == 0,
        d.sections.len() > 1,
        d.sections[0].name == SECTION_MISSION@,
        d.mission_history.len() > 0,
        key.code == KeyCode::Char('j'),
        s.focus matches MissionFocus::HistoryItem(k) ==> s.expanded && k < d.mission_history.len(),
    ensures
        ({
            let t = key_outcome(s, d, key, now).state;
            let n = d.mission_history.len();
            &&& s.focus == MissionFocus::HistoryHeader && s.expanded ==> t.section == 0 && t.focus
                == MissionFocus::HistoryItem(0)
            &&& s.focus == MissionFocus::HistoryHeader && !s.expanded ==> t.section == 1 && t.item
                == 0 && t.focus == MissionFocus::Active
            &&& (s.focus matches MissionFocus::HistoryItem(k) ==> if k + 1 < n {
                t.section == 0 && t.focus == MissionFocus::HistoryItem((k + 1) as usize)
            } else {
                t.section == 1 && t.item == 0 && t.focus == MissionFocus::Active
            })
        }),
{
}

/// `k` goes to the row above. From the first row it goes to the last of the section
/// before, or its header; above the missions' history it passes through that. At the
/// very top it stays.
pub proof fn k_goes_up(s: EditView, d: DocView, key: KeyEvent, now: Moment)
    requires
        on_row(s, d),
        key.code == KeyCode::Char('k'),
    ensures
        ({
            let t = key_outcome(s, d, key, now).state;
            let p = s.section - 1;
            let mission = d.sections[s.section].name == SECTION_MISSION@;
            let h = d.mission_history.len();
            &&& s.item > 0 ==> t.section == s.section && t.item == s.item - 1
            &&& s.item == 0 && (mission || s.section == 0) ==> t.section == s.section && t.item == 0
            &&& s.item == 0 && !mission && s.section > 0 ==> {
                &&& t.section == p
                &&& d.sections[p].name != SECTION_MISSION@ || h == 0 ==> t.item == (
                if d.sections[p].items.len() > 0 {
                    d.sections[p].items.len() - 1
                } else {
                    0
                })
                &&& d.sections[p].name == SECTION_MISSION@ && h > 0 && s.expanded && h <= usize::MAX
                    ==> t.focus == MissionFocus::HistoryItem((h - 1) as usize)
                &&& d.sections[p].name == SECTION_MISSION@ && h > 0 && !s.expanded ==> t.focus
                    == MissionFocus::HistoryHeader
                &&& d.sections[p].name == SECTION_MISSION@ && h == 0 ==> t.focus
                    == MissionFocus::Active
            }
        }),
{
}

/// Within the history `k` goes from a mission to the one before it, from the first to the
/// header, and from the header to the last active mission.
pub proof fn k_goes_through_the_history(s: EditView, d: DocView, key: KeyEvent, now: Moment)
    requires
        s.mode == EditMode::Nav,
        s.section == 0,
        d.sections.len() > 0,
        d.sections[0].name == SECTION_MISSION@,
        key.code == KeyCode::Char('k'),
        s.focus matches MissionFocus::HistoryItem(k) ==> s.expanded && k < d.mission_history.len(),
    ensures
        ({
            let t = key_outcome(s, d, key, now).state;
            let n = d.sections[0].items.len();
            &&& s.focus != MissionFocus::Active ==> t.section == 0
            &&& s.focus == MissionFocus::HistoryHeader ==> t.focus == MissionFocus::Active && t.item
                == (if n > 0 {
                n - 1
            } else {
                0
            })
            &&& (s.focus matches MissionFocus::HistoryItem(k) ==> t.focus == (if k > 0 {
                MissionFocus::HistoryItem((k - 1) as usize)
            } else {
                MissionFocus::HistoryHeader
            }))
        }),
{
}

/// `j` and `k` undo each other between two rows of a section.
pub proof fn j_and_k_cancel_out(s: EditView, d: DocView, now: Moment)
    requires
        on_row(s, d),
        s.item + 1 < d.sections[s.section].items.len(),
    ensures
        ({
            let down = KeyEvent { code: KeyCode::Char('j'), modifiers: KeyModifiers::Plain };
            let up = KeyEvent { code: KeyCode::Char('k'), modifiers: KeyModifiers::Plain };
            let t = key_outcome(key_outcome(s, d, down, now).state, d, up, now).state;
            t.section == s.section && t.item == s.item && t.focus == s.focus
        }),
{
}

/// A section with a row, or with past missions.
pub open spec fn holds_something(d: DocView, j: int) -> bool {
    d.sections[j].items.len() > 0 || d.sections[j].name == SECTION_MISSION@
        && d.mission_history.len() > 0
}

proof fn lemma_first_content(d: DocView, i: int, j: int)
    requires
        0 <= i <= j < d.sections.len(),
        holds_something(d, j),
    ensures
        i <= first_content(d, i) <= j,
        holds_something(d, first_content(d, i)),
        forall|k: int| i <= k < first_content(d, i) ==> !#[trigger] holds_something(d, k),
    decreases j - i,
{
    if !holds_something(d, i) {
        lemma_first_content(d, i + 1, j);
    }
}

/// `g` goes to the first row of the first section that has one. Sections before it are
/// empty; a mission section with nothing but history counts.
pub proof fn g_goes_to_the_top(s: EditView, d: DocView, key: KeyEvent, now: Moment, j: int)
    requires
        s.mode == EditMode::Nav,
        key.code == KeyCode::Char('g'),
        0 <= j < d.sections.len(),
        d.sections[j].items.len() > 0,
    ensures
        ({
            let t = key_outcome(s, d, key, now).state;
            &&& 0 <= t.section <= j
            &&& t.item == 0
            &&& d.sections[t.section].items.len() > 0 || d.sections[t.section].name
                == SECTION_MISSION@ && t.focus == MissionFocus::HistoryHeader
            &&& d.sections[t.section].items.len() > 0 ==> t.focus == MissionFocus::Active
            &&& forall|k: int|
                0 <= k < t.section ==> (#[trigger] d.sections[k]).items.len() == 0
        }),
{
    lemma_first_content(d, 0, j);
    assert forall|k: int| 0 <= k < first_content(d, 0) implies (
    #[trigger] d.sections[k]).items.len() == 0 by {
        assert(!holds_something(d, k));
    }
}

proof fn lemma_last_row(d: DocView, n: int)
    requires
        0 <= n <= d.sections.len(),
    ensures
        ({
            let l = last_row(d, n);
            &&& forall|j: int|
                l.0 < j < n ==> (#[trigger] d.sections[j]).items.len() == 0
            &&& (0 <= l.0 < n && d.sections[l.0].items.len() > 0 && l.1
                == d.sections[l.0].items.len() - 1) || (l == (0int, 0int) && forall|j: int|
                0 <= j < n ==> (#[trigger] d.sections[j]).items.len() == 0)
        }),
    decreases n,
{
    if n > 0 {
        lemma_last_row(d, n - 1);
    }
}

/// `G` goes to the last row of the last section that has one.
pub proof fn upper_g_goes_to_the_bottom(
    s: EditView,
    d: DocView,
    key: KeyEvent,
    now: Moment,
    j: int,
)
    requires
        s.mode == EditMode::Nav,
        key.code == KeyCode::Char('G'),
        0 <= j < d.sections.len(),
        d.sections[j].items.len() > 0,
    ensures
        ({
            let t = key_outcome(s, d, key, now).state;
            &&& j <= t.section < d.sections.len()
            &&& t.item == d.sections[t.section].items.len() - 1
            &&& t.item >= 0
            &&& t.focus == MissionFocus::Active
            &&& forall|k: int|
                t.section < k < d.sections.len() ==> (#[trigger] d.sections[k]).items.len() == 0
        }),
{
    lemma_last_row(d, d.sections.len() as int);
}

/// A cursor past the last row of its section counts as being on the last row.
pub proof fn a_cursor_past_the_end_is_on_the_last_row(
    s: EditView,
    d: DocView,
    key: KeyEvent,
    now: Moment,
)
    requires
        s.mode == EditMode::Nav,
        0 <= s.section < d.sections.len(),
        0 < d.sections[s.section].items.len() <= s.item,
        d.sections[s.section].name == SECTION_MISSION@ ==> s.focus == MissionFocus::Active,
    ensures
        key_outcome(s, d, key, now) == key_outcome(
            EditView { item: d.sections[s.section].items.len() - 1, ..s },
            d,
            key,
            now,
        ),
{
}

// ---------------------------------------------------------------------------
// Typing
// ---------------------------------------------------------------------------

/// What is typed goes into the row's buffer.
pub open spec fn typing_text(s: EditView) -> bool {
    s.mode == (EditMode::Insert { focus: InsertFocus::Item })
}

/// What is typed goes into the user's explanation.
pub open spec fn typing_context(s: EditView) -> bool {
    s.mode == (EditMode::Insert { focus: InsertFocus::InputCtx })
}

/// Until insert mode is left no key but a backspace on a blank goal changes the document,
/// and none reports a change.
pub proof fn typing_changes_no_row(s: EditView, d: DocView, key: KeyEvent, now: Moment)
    requires
        s.mode is Insert,
        key.code != KeyCode::Esc,
    ensures
        key_outcome(s, d, key, now).actions.len() == 0,
        key_outcome(s, d, key, now).state.mode is Insert,
        key.code != KeyCode::Backspace ==> key_outcome(s, d, key, now).doc == d,
        key.code != KeyCode::Backspace ==> key_outcome(s, d, key, now).state.item == s.item,
        key_outcome(s, d, key, now).state.section == s.section,
        typing_context(s) ==> key_outcome(s, d, key, now).doc == d,
        typing_context(s) ==> key_outcome(s, d, key, now).state.buffer == s.buffer,
        typing_context(s) ==> key_outcome(s, d, key, now).state.col == s.col,
        typing_text(s) ==> key_outcome(s, d, key, now).state.context == s.context,
{
}

/// A character, alone or with Shift, goes in where the cursor is, and the cursor goes
/// behind it. In the explanation it goes to the end.
pub proof fn a_character_goes_in_at_the_cursor(
    s: EditView,
    d: DocView,
    c: char,
    key: KeyEvent,
    now: Moment,
)
    requires
        s.mode is Insert,
        0 <= s.col <= s.buffer.len(),
        key.code == KeyCode::Char(c),
        key.modifiers == KeyModifiers::Plain || key.modifiers == KeyModifiers::Shift,
    ensures
        ({
            let t = key_outcome(s, d, key, now).state;
            &&& typing_text(s) ==> {
                &&& t.buffer.len() == s.buffer.len() + 1
                &&& t.buffer[s.col] == c
                &&& t.buffer.take(s.col) == s.buffer.take(s.col)
                &&& t.buffer.skip(s.col + 1) == s.buffer.skip(s.col)
                &&& t.col == s.col + 1
            }
            &&& typing_context(s) ==> t.context == s.context.push(c)
        }),
{
    let t = key_outcome(s, d, key, now).state;
    if typing_text(s) {
        assert(t.buffer.take(s.col) =~= s.buffer.take(s.col));
        assert(t.buffer.skip(s.col + 1) =~= s.buffer.skip(s.col));
    }
}

/// Backspace takes the character before the cursor, and Delete the one behind it; both
/// leave the rest as it is. In the explanation Backspace takes the last one.
pub proof fn backspace_and_delete_take_one_character(
    s: EditView,
    d: DocView,
    key: KeyEvent,
    now: Moment,
)
    requires
        s.mode is Insert,
        0 <= s.col <= s.buffer.len(),
        key.modifiers == KeyModifiers::Plain,
        trim(s.buffer).len() > 0,
    ensures
        ({
            let t = key_outcome(s, d, key, now).state;
            &&& typing_text(s) && key.code == KeyCode::Backspace && s.col > 0 ==> {
                &&& t.buffer == s.buffer.take(s.col - 1) + s.buffer.skip(s.col)
                &&& t.col == s.col - 1
            }
            &&& typing_text(s) && key.code == KeyCode::Backspace && s.col == 0 ==> t.buffer
                == s.buffer && t.col == 0
            &&& typing_text(s) && key.code == KeyCode::Delete ==> t.col == s.col && t.buffer == (
            if s.col < s.buffer.len() {
                s.buffer.take(s.col) + s.buffer.skip(s.col + 1)
            } else {
                s.buffer
            })
            &&& typing_context(s) && key.code == KeyCode::Backspace ==> t.context == (
            if s.context.len() > 0 {
                s.context.take(s.context.len() - 1)
            } else {
                s.context
            })
            &&& typing_context(s) && key.code == KeyCode::Delete ==> t.context == s.context
        }),
{
    let t = key_outcome(s, d, key, now).state;
    if typing_text(s) && key.code == KeyCode::Backspace && s.col > 0 {
        assert(t.buffer =~= s.buffer.take(s.col - 1) + s.buffer.skip(s.col));
    }
    if typing_text(s) && key.code == KeyCode::Delete && s.col < s.buffer.len() {
        assert(t.buffer =~= s.buffer.take(s.col) + s.buffer.skip(s.col + 1));
    }
    if typing_context(s) && s.context.len() > 0 {
        assert(s.context.drop_last() =~= s.context.take(s.context.len() - 1));
    }
}

/// The arrows go one character left or right and stop at the ends; Home and End, and
/// Ctrl-a and Ctrl-e, go to the ends. The text stays.
pub proof fn the_cursor_moves_within_the_text(s: EditView, d: DocView, key: KeyEvent, now: Moment)
    requires
        typing_text(s),
        0 <= s.col <= s.buffer.len(),
    ensures
        ({
            let t = key_outcome(s, d, key, now).state;
            let first = key.code == KeyCode::Home || key.code == KeyCode::Char('a')
                && key.modifiers == KeyModifiers::Control;
            let last = key.code == KeyCode::End || key.code == KeyCode::Char('e') && key.modifiers
                == KeyModifiers::Control;
            &&& key.code == KeyCode::Left ==> t.buffer == s.buffer && t.col == (if s.col > 0 {
                s.col - 1
            } else {
                0
            })
            &&& key.code == KeyCode::Right ==> t.buffer == s.buffer && t.col == (if s.col
                < s.buffer.len() {
                s.col + 1
            } else {
                s.col
            })
            &&& first ==> t.buffer == s.buffer && t.col == 0
            &&& last ==> t.buffer == s.buffer && t.col == s.buffer.len()
        }),
{
}

/// Tab switches between the row and its explanation and keeps both.
pub proof fn tab_switches_the_text(s: EditView, d: DocView, key: KeyEvent, now: Moment)
    requires
        s.mode is Insert,
        key.code == KeyCode::Tab,
    ensures
        ({
            let t = key_outcome(s, d, key, now).state;
            &&& typing_text(s) ==> typing_context(t)
            &&& typing_context(s) ==> typing_text(t)
            &&& t.buffer == s.buffer
            &&& t.context == s.context
            &&& t.col == s.col
        }),
{
}

proof fn lemma_spaces_start(s: Seq<char>, i: int)
    requires
        0 <= i <= s.len(),
    ensures
        0 <= spaces_start(s, i) <= i,
        forall|k: int| spaces_start(s, i) <= k < i ==> is_space(#[trigger] s[k]),
        spaces_start(s, i) > 0 ==> !is_space(s[spaces_start(s, i) - 1]),
    decreases i,
{
    if i > 0 && is_space(s[i - 1]) {
        lemma_spaces_start(s, i - 1);
    }
}

proof fn lemma_word_start(s: Seq<char>, i: int)
    requires
        0 <= i <= s.len(),
    ensures
        0 <= word_start(s, i) <= i,
        forall|k: int| word_start(s, i) <= k < i ==> !is_space(#[trigger] s[k]),
        word_start(s, i) > 0 ==> is_space(s[word_start(s, i) - 1]),
    decreases i,
{
    if i > 0 && !is_space(s[i - 1]) {
        lemma_word_start(s, i - 1);
    }
}

/// Alt-Backspace takes the whole word before the cursor with the blanks behind it, and no
/// more: what goes is a run of characters that are not blank, reaching back to a blank or
/// to the start, and then blanks up to the cursor. What is left keeps its order.
pub proof fn alt_backspace_takes_a_word(s: EditView, d: DocView, key: KeyEvent, now: Moment)
    requires
        typing_text(s),
        0 <= s.col <= s.buffer.len(),
        key.code == KeyCode::Backspace,
        key.modifiers == KeyModifiers::Alt,
    ensures
        ({
            let t = key_outcome(s, d, key, now).state;
            &&& key_outcome(s, d, key, now).doc == d
            &&& 0 <= t.col <= s.col
            &&& t.buffer == s.buffer.take(t.col) + s.buffer.skip(s.col)
            &&& t.col > 0 ==> is_space(s.buffer[t.col - 1])
            &&& exists|m: int|
                t.col <= m <= s.col && #[trigger] is_cut(s.buffer, t.col, m, s.col)
        }),
{
    let m = spaces_start(s.buffer, s.col);
    lemma_spaces_start(s.buffer, s.col);
    lemma_word_start(s.buffer, m);
    let t = key_outcome(s, d, key, now).state;
    if word_before(s.buffer, s.col) == s.col {
        assert(s.buffer.take(s.col) + s.buffer.skip(s.col) =~= s.buffer);
    }
    assert(is_cut(s.buffer, t.col, m, s.col));
}

/// From `a` to `m` there is no blank, from `m` to `b` there are only blanks, and where
/// something stands before `b`, the word is not empty.
pub open spec fn is_cut(text: Seq<char>, a: int, m: int, b: int) -> bool {
    &&& forall|k: int| a <= k < m ==> !is_space(#[trigger] text[k])
    &&& forall|k: int| m <= k < b ==> is_space(#[trigger] text[k])
    &&& m > 0 ==> a < m
}

// ---------------------------------------------------------------------------
// Leaving insert mode
// ---------------------------------------------------------------------------

/// Esc leaves insert mode with empty buffers for the row; the explanation is kept for the
/// save.
pub proof fn escape_leaves_insert_mode(s: EditView, d: DocView, key: KeyEvent, now: Moment)
    requires
        s.mode is Insert,
        key.code == KeyCode::Esc,
    ensures
        ({
            let t = key_outcome(s, d, key, now).state;
            &&& t.mode == EditMode::Nav
            &&& t.buffer.len() == 0
            &&& t.col == 0
            &&& t.start_text is None
            &&& !t.provisional
            &&& t.context == s.context
            &&& t.section == s.section
        }),
{
}

/// Esc writes the text into the row that was edited and into no other, and reports the
/// row as it was and as it is. Where the text is what it was when editing began, nothing
/// is written and nothing reported.
pub proof fn escape_writes_the_text(s: EditView, d: DocView, key: KeyEvent, now: Moment)
    requires
        s.mode is Insert,
        key.code == KeyCode::Esc,
        0 <= s.section < d.sections.len(),
        0 <= s.item < d.sections[s.section].items.len(),
        !s.provisional || d.sections[s.section].name != SECTION_MISSION@,
        s.start_text is Some,
    ensures
        ({
            let o = key_outcome(s, d, key, now);
            let before = d.sections[s.section].items;
            let after = o.doc.sections[s.section].items;
            let i = s.item;
            &&& same_but_rows(d, o.doc, s.section)
            &&& o.state.item == i
            &&& s.buffer == s.start_text.unwrap() ==> o.doc == d && o.actions.len() == 0
            &&& s.buffer != s.start_text.unwrap() ==> {
                &&& after.len() == before.len()
                &&& forall|j: int|
                    0 <= j < before.len() && j != i ==> (#[trigger] after[j]) == before[j]
                &&& after[i].text == s.buffer
                &&& after[i].checked == before[i].checked
                &&& after[i].is_checkbox == before[i].is_checkbox
                &&& after[i].surface_id == before[i].surface_id
                &&& o.actions == seq![
                    ActionView::Edit {
                        section: d.sections[s.section].name,
                        before: display(before[i], s.start_text.unwrap()),
                        after: display(before[i], s.buffer),
                    },
                ]
            }
        }),
{
}

/// Esc on a new mission: a blank one is taken away again and not reported; any other is
/// written without its outer blanks and with the user's mark in front, once.
pub proof fn escape_marks_the_users_mission(s: EditView, d: DocView, key: KeyEvent, now: Moment)
    requires
        s.mode is Insert,
        key.code == KeyCode::Esc,
        0 <= s.section < d.sections.len(),
        d.sections[s.section].name == SECTION_MISSION@,
        0 <= s.item < d.sections[s.section].items.len(),
        s.provisional,
        s.start_text is Some,
        s.start_text.unwrap().len() == 0,
    ensures
        ({
            let o = key_outcome(s, d, key, now);
            let before = d.sections[s.section].items;
            let after = o.doc.sections[s.section].items;
            let i = s.item;
            let t = trim(s.buffer);
            let text = after[i].text;
            &&& same_but_rows(d, o.doc, s.section)
            &&& t.len() == 0 ==> lacks(before, after, i) && o.actions.len() == 0 && o.state.focus
                == MissionFocus::Active && o.state.item == (if i < after.len() || i == 0 {
                i
            } else {
                i - 1
            })
            &&& t.len() > 0 ==> {
                &&& after.len() == before.len()
                &&& forall|j: int|
                    0 <= j < before.len() && j != i ==> (#[trigger] after[j]) == before[j]
                &&& starts_with(t, "[h]"@) ==> text == t
                &&& !starts_with(t, "[h]"@) ==> text == "[h] "@ + t
                &&& after[i].checked == before[i].checked
                &&& after[i].is_checkbox == before[i].is_checkbox
                &&& o.actions.len() == 1
                &&& o.actions[0] == (ActionView::Edit {
                    section: SECTION_MISSION@,
                    before: display(before[i], Seq::empty()),
                    after: display(before[i], text),
                })
            }
        }),
{
    reveal_strlit("[h] ");
    if trim(s.buffer).len() > 0 {
        assert(s.start_text.unwrap() =~= Seq::<char>::empty());
    }
}

/// Backspace on a blank goal that has one above it removes the row and goes on editing
/// the one above, at its end. Nothing is reported.
pub proof fn backspace_removes_a_blank_goal(s: EditView, d: DocView, key: KeyEvent, now: Moment)
    requires
        typing_text(s),
        key.code == KeyCode::Backspace,
        key.modifiers == KeyModifiers::Plain,
        trim(s.buffer).len() == 0,
        0 <= s.section < d.sections.len(),
        d.sections[s.section].name == SECTION_GOALS@,
        0 < s.item < d.sections[s.section].items.len(),
    ensures
        ({
            let o = key_outcome(s, d, key, now);
            let before = d.sections[s.section].items;
            let above = before[s.item - 1].text;
            &&& same_but_rows(d, o.doc, s.section)
            &&& lacks(before, o.doc.sections[s.section].items, s.item)
            &&& o.actions.len() == 0
            &&& typing_text(o.state)
            &&& o.state.item == s.item - 1
            &&& o.state.buffer == above
            &&& o.state.start_text == Some(above)
            &&& o.state.col == above.len()
        }),
{
}

/// A cursor past the last finished mission counts as being on the last one; on a folded
/// history it counts as being on its header.
pub proof fn a_cursor_past_the_history_is_on_the_last_mission(
    s: EditView,
    d: DocView,
    k: usize,
    key: KeyEvent,
    now: Moment,
)
    requires
        s.mode == EditMode::Nav,
        0 <= s.section < d.sections.len(),
        d.sections[s.section].name == SECTION_MISSION@,
        s.focus == MissionFocus::HistoryItem(k),
        d.mission_history.len() <= usize::MAX,
    ensures
        !s.expanded || d.mission_history.len() == 0 ==> key_outcome(s, d, key, now) == key_outcome(
            EditView { focus: MissionFocus::HistoryHeader, ..s },
            d,
            key,
            now,
        ),
        s.expanded && 0 < d.mission_history.len() <= k ==> key_outcome(s, d, key, now)
            == key_outcome(
            EditView {
                focus: MissionFocus::HistoryItem((d.mission_history.len() - 1) as usize),
                ..s
            },
            d,
            key,
            now,
        ),
{
}

} // verus!
