//! The editing state machine of the trajectory pane: navigation, insertion,
//! and what an edit session writes when it is saved.
use crate::clock::{Moment, NANOS_PER_SEC};
use crate::keys::{KeyCode, KeyEvent, KeyModifiers};
use crate::search::{starts, starts_with};
use crate::text::{
    chars_of, concat2, is_space, is_space_char, opt_view, same, string_from, trim, trim_chars,
    trim_str,
};
use crate::trajectory::{
    item_views, lemma_same_sections, lemma_section_names_differ, section_is, section_named,
    with_items, DocView, Item, ItemView, TrajectoryDoc, SECTION_CURRENT_SURFACES, SECTION_GOALS,
    SECTION_MISSION,
};
use vstd::prelude::*;

verus! {

// ---------------------------------------------------------------------------
// Types
// ---------------------------------------------------------------------------

/// Which text buffer the cursor is in while inserting.
#[derive(Debug, Clone, Copy, PartialEq, Eq, Structural)]
pub enum InsertFocus {
    /// Editing the trajectory item text.
    Item,
    /// Editing the input-context (user explanation) buffer.
    InputCtx,
}

#[derive(Debug, Clone, Copy, PartialEq, Eq, Structural)]
pub enum EditMode {
    /// Normal cursor movement; no text buffer open.
    Nav,
    /// Single-line text edit for a trajectory item.
    Insert { focus: InsertFocus },
}

/// Where in the mission section the cursor stands.
#[derive(Debug, Clone, Copy, PartialEq, Eq, Structural)]
pub enum MissionFocus {
    Active,
    HistoryHeader,
    HistoryItem(usize),
}

/// A line-level change that a key press made.
#[derive(Debug, Clone, PartialEq, Eq)]
pub enum EditAction {
    /// Text of an existing item was changed.
    Edit { section: String, before: String, after: String },
    /// An item was deleted.
    Delete { section: String, before: String },
    /// A checkbox was toggled on.
    Check { section: String, before: String, after: String },
    /// A checkbox was toggled off.
    Uncheck { section: String, before: String, after: String },
    /// An item was reordered within its section.
    Move { section: String, before: String },
}

/// What an edit action says.
pub enum ActionView {
    Edit { section: Seq<char>, before: Seq<char>, after: Seq<char> },
    Delete { section: Seq<char>, before: Seq<char> },
    Check { section: Seq<char>, before: Seq<char>, after: Seq<char> },
    Uncheck { section: Seq<char>, before: Seq<char>, after: Seq<char> },
    Move { section: Seq<char>, before: Seq<char> },
}

impl View for EditAction {
    type V = ActionView;

    open spec fn view(&self) -> ActionView {
        match *self {
            EditAction::Edit { section, before, after } => ActionView::Edit {
                section: section@,
                before: before@,
                after: after@,
            },
            EditAction::Delete { section, before } => ActionView::Delete {
                section: section@,
                before: before@,
            },
            EditAction::Check { section, before, after } => ActionView::Check {
                section: section@,
                before: before@,
                after: after@,
            },
            EditAction::Uncheck { section, before, after } => ActionView::Uncheck {
                section: section@,
                before: before@,
                after: after@,
            },
            EditAction::Move { section, before } => ActionView::Move {
                section: section@,
                before: before@,
            },
        }
    }
}

/// What each of the actions says.
pub open spec fn action_views(s: Seq<EditAction>) -> Seq<ActionView> {
    s.map_values(|a: EditAction| a@)
}

/// Per-workspace editing state.
#[derive(Debug)]
pub struct TrajectoryEditState {
    /// Index into the document's sections.
    pub cursor_section: usize,
    /// Index into the items of the section under the cursor.
    pub cursor_item: usize,
    pub mode: EditMode,
    /// In-flight text for the item being edited (insert mode only).
    pub edit_buffer: String,
    /// In-flight text for the user-explanation pane (insert mode only).
    pub input_ctx_buffer: String,
    /// Text of the item when insert mode was entered.
    pub edit_start_text: Option<String>,
    /// Cursor column within `edit_buffer`, in characters.
    pub cursor_col: usize,
    /// When the first `d` of a `dd` was pressed.
    pub pending_d_at: Option<Moment>,
    /// Mission history is folded by default and expanded with Enter.
    pub mission_history_expanded: bool,
    /// Mission rows continue into a virtual history header and its items.
    pub mission_focus: MissionFocus,
    /// True only for a blank mission row that has not been committed yet.
    pub provisional_human_mission: bool,
}

/// What the editing state says.
#[verifier::ext_equal]
pub struct EditView {
    pub section: int,
    pub item: int,
    pub mode: EditMode,
    pub buffer: Seq<char>,
    pub context: Seq<char>,
    pub start_text: Option<Seq<char>>,
    pub col: int,
    pub pending_d: Option<Moment>,
    pub expanded: bool,
    pub focus: MissionFocus,
    pub provisional: bool,
}

impl View for TrajectoryEditState {
    type V = EditView;

    open spec fn view(&self) -> EditView {
        EditView {
            section: self.cursor_section as int,
            item: self.cursor_item as int,
            mode: self.mode,
            buffer: self.edit_buffer@,
            context: self.input_ctx_buffer@,
            start_text: opt_view(self.edit_start_text),
            col: self.cursor_col as int,
            pending_d: self.pending_d_at,
            expanded: self.mission_history_expanded,
            focus: self.mission_focus,
            provisional: self.provisional_human_mission,
        }
    }
}

/// The state before anything was edited.
pub open spec fn initial_edit() -> EditView {
    EditView {
        section: 0,
        item: 0,
        mode: EditMode::Nav,
        buffer: Seq::empty(),
        context: Seq::empty(),
        start_text: None,
        col: 0,
        pending_d: None,
        expanded: false,
        focus: MissionFocus::Active,
        provisional: false,
    }
}

impl Default for TrajectoryEditState {
    fn default() -> (r: Self)
        ensures
            r@ == initial_edit(),
    {
        TrajectoryEditState {
            cursor_section: 0,
            cursor_item: 0,
            mode: EditMode::Nav,
            edit_buffer: String::new(),
            input_ctx_buffer: String::new(),
            edit_start_text: None,
            cursor_col: 0,
            pending_d_at: None,
            mission_history_expanded: false,
            mission_focus: MissionFocus::Active,
            provisional_human_mission: false,
        }
    }
}

impl Clone for TrajectoryEditState {
    fn clone(&self) -> (r: Self)
        ensures
            r == *self,
    {
        TrajectoryEditState {
            cursor_section: self.cursor_section,
            cursor_item: self.cursor_item,
            mode: self.mode,
            edit_buffer: self.edit_buffer.clone(),
            input_ctx_buffer: self.input_ctx_buffer.clone(),
            edit_start_text: crate::text::clone_opt(&self.edit_start_text),
            cursor_col: self.cursor_col,
            pending_d_at: self.pending_d_at,
            mission_history_expanded: self.mission_history_expanded,
            mission_focus: self.mission_focus,
            provisional_human_mission: self.provisional_human_mission,
        }
    }
}

/// State, document and actions after a key press.
#[verifier::ext_equal]
pub struct Outcome {
    pub state: EditView,
    pub doc: DocView,
    pub actions: Seq<ActionView>,
}

/// A step that emits no action.
pub open spec fn quiet(s: EditView, d: DocView) -> Outcome {
    Outcome { state: s, doc: d, actions: Seq::empty() }
}

// ---------------------------------------------------------------------------
// Rows
// ---------------------------------------------------------------------------

/// A row with the given text as it appears in the document.
pub open spec fn display(item: ItemView, text: Seq<char>) -> Seq<char> {
    if item.is_checkbox {
        if item.checked == Some(true) {
            "- [x] "@ + text
        } else {
            "- [ ] "@ + text
        }
    } else {
        "- "@ + text
    }
}

/// Writes a row with the given text as it appears in the document.
pub fn item_display_text(item: &Item, text: &str) -> (r: String)
    ensures
        r@ == display(item@, text@),
{
    if item.is_checkbox {
        let on = match item.checked {
            Some(b) => b,
            None => false,
        };
        if on {
            concat2("- [x] ", text)
        } else {
            concat2("- [ ] ", text)
        }
    } else {
        concat2("- ", text)
    }
}

/// The cursor's section exists.
pub open spec fn in_section(s: EditView, d: DocView) -> bool {
    0 <= s.section < d.sections.len()
}

/// The rows of the cursor's section.
pub open spec fn rows(s: EditView, d: DocView) -> Seq<ItemView> {
    d.sections[s.section].items
}

/// The cursor is in the section of open surfaces, which edits may not touch.
pub open spec fn on_surfaces(s: EditView, d: DocView) -> bool {
    section_is(d, s.section, SECTION_CURRENT_SURFACES@)
}

/// The cursor is in the mission section.
pub open spec fn on_mission(s: EditView, d: DocView) -> bool {
    section_is(d, s.section, SECTION_MISSION@)
}

/// The cursor is in the section of goals.
pub open spec fn on_goals(s: EditView, d: DocView) -> bool {
    section_is(d, s.section, SECTION_GOALS@)
}

/// The cursor is on the folded part of the mission section.
pub open spec fn on_history(s: EditView, d: DocView) -> bool {
    on_mission(s, d) && s.focus != MissionFocus::Active
}

/// Rows may be inserted, entered or moved at the cursor.
pub open spec fn writable(s: EditView, d: DocView) -> bool {
    !on_surfaces(s, d) && !on_history(s, d)
}

// ---------------------------------------------------------------------------
// Cursor movement
// ---------------------------------------------------------------------------

/// The cursor moved back onto a row that exists.
pub open spec fn clamp(s: EditView, d: DocView) -> EditView {
    if !in_section(s, d) {
        s
    } else {
        let n = rows(s, d).len();
        let h = d.mission_history.len();
        let last_row = EditView { item: n - 1, ..s };
        if on_mission(s, d) {
            match s.focus {
                MissionFocus::Active => if n == 0 && h > 0 {
                    EditView { focus: MissionFocus::HistoryHeader, ..s }
                } else if n > 0 && s.item >= n {
                    last_row
                } else {
                    s
                },
                MissionFocus::HistoryHeader => s,
                MissionFocus::HistoryItem(k) => if !s.expanded || h == 0 {
                    EditView { focus: MissionFocus::HistoryHeader, ..s }
                } else if k >= h {
                    EditView { focus: MissionFocus::HistoryItem((h - 1) as usize), ..s }
                } else {
                    s
                },
            }
        } else if n > 0 && s.item >= n {
            last_row
        } else {
            s
        }
    }
}

/// One row down: through the rows, the history and the sections in turn.
pub open spec fn cursor_down(s: EditView, d: DocView) -> EditView {
    if d.sections.len() == 0 {
        s
    } else {
        let n = rows(s, d).len();
        let h = d.mission_history.len();
        let next_row = EditView { item: s.item + 1, ..s };
        if on_mission(s, d) {
            let leave = if d.sections.len() > 1 {
                EditView { section: 1, item: 0, focus: MissionFocus::Active, ..s }
            } else {
                s
            };
            match s.focus {
                MissionFocus::Active => if s.item + 1 < n {
                    next_row
                } else if h > 0 {
                    EditView { focus: MissionFocus::HistoryHeader, ..s }
                } else {
                    leave
                },
                MissionFocus::HistoryHeader => if s.expanded && h > 0 {
                    EditView { focus: MissionFocus::HistoryItem(0), ..s }
                } else {
                    leave
                },
                MissionFocus::HistoryItem(k) => if k + 1 < h {
                    EditView { focus: MissionFocus::HistoryItem((k + 1) as usize), ..s }
                } else {
                    leave
                },
            }
        } else if s.item + 1 < n {
            next_row
        } else if s.section + 1 < d.sections.len() {
            EditView { section: s.section + 1, item: 0, ..s }
        } else {
            s
        }
    }
}

/// The last row of a list, or its header when it is empty.
pub open spec fn last_or_header(items: Seq<ItemView>) -> int {
    if items.len() > 0 {
        items.len() - 1
    } else {
        0
    }
}

/// One row up, the way `cursor_down` goes down.
pub open spec fn cursor_up(s: EditView, d: DocView) -> EditView {
    if on_mission(s, d) {
        match s.focus {
            MissionFocus::Active => if s.item > 0 {
                EditView { item: s.item - 1, ..s }
            } else {
                s
            },
            MissionFocus::HistoryHeader => EditView {
                focus: MissionFocus::Active,
                item: last_or_header(d.sections[0].items),
                ..s
            },
            MissionFocus::HistoryItem(k) => if k == 0 {
                EditView { focus: MissionFocus::HistoryHeader, ..s }
            } else {
                EditView { focus: MissionFocus::HistoryItem((k - 1) as usize), ..s }
            },
        }
    } else if s.item > 0 {
        EditView { item: s.item - 1, ..s }
    } else if s.section == 0 {
        s
    } else {
        let p = s.section - 1;
        let h = d.mission_history.len();
        if section_is(d, p, SECTION_MISSION@) {
            if h > 0 {
                let focus = if s.expanded {
                    MissionFocus::HistoryItem((h - 1) as usize)
                } else {
                    MissionFocus::HistoryHeader
                };
                EditView { section: p, focus, ..s }
            } else {
                EditView {
                    section: p,
                    focus: MissionFocus::Active,
                    item: last_or_header(d.sections[p].items),
                    ..s
                }
            }
        } else {
            EditView { section: p, item: last_or_header(d.sections[p].items), ..s }
        }
    }
}

/// A section with something to land on.
pub open spec fn has_content(d: DocView, i: int) -> bool {
    d.sections[i].items.len() > 0 || (section_is(d, i, SECTION_MISSION@)
        && d.mission_history.len() > 0)
}

/// The first section at or after `i` with content; the first one when there is none.
pub open spec fn first_content(d: DocView, i: int) -> int
    decreases d.sections.len() - i,
{
    if i < 0 || i >= d.sections.len() {
        0
    } else if has_content(d, i) {
        i
    } else {
        first_content(d, i + 1)
    }
}

/// The last row of the last of the first `n` sections that has rows.
pub open spec fn last_row(d: DocView, n: int) -> (int, int)
    decreases n,
{
    if n <= 0 {
        (0, 0)
    } else if d.sections[n - 1].items.len() > 0 {
        (n - 1, d.sections[n - 1].items.len() - 1)
    } else {
        last_row(d, n - 1)
    }
}

/// Moves the cursor back onto a row that exists.
pub fn clamp_cursor_to_visible_items(state: &mut TrajectoryEditState, doc: &TrajectoryDoc)
    ensures
        final(state)@ == clamp(old(state)@, doc@),
{
    if state.cursor_section >= doc.sections.len() {
        return;
    }
    let n: usize = doc.sections[state.cursor_section].items.len();
    let h: usize = doc.mission_history.len();
    assert(n == rows(state@, doc@).len());
    if doc.is_section(state.cursor_section, SECTION_MISSION) {
        match state.mission_focus {
            MissionFocus::Active => {
                if n == 0 && h > 0 {
                    state.mission_focus = MissionFocus::HistoryHeader;
                } else if n > 0 && state.cursor_item >= n {
                    state.cursor_item = n - 1;
                }
            },
            MissionFocus::HistoryHeader => {},
            MissionFocus::HistoryItem(index) => {
                if !state.mission_history_expanded || h == 0 {
                    state.mission_focus = MissionFocus::HistoryHeader;
                } else if index >= h {
                    state.mission_focus = MissionFocus::HistoryItem(h - 1);
                }
            },
        }
    } else if n > 0 && state.cursor_item >= n {
        state.cursor_item = n - 1;
    }
}

/// Moves the cursor one row down.
pub fn move_cursor_down(state: &mut TrajectoryEditState, doc: &TrajectoryDoc)
    requires
        doc@.sections.len() == 0 || in_section(old(state)@, doc@),
    ensures
        final(state)@ == cursor_down(old(state)@, doc@),
{
    let sections: usize = doc.sections.len();
    if sections == 0 {
        return;
    }
    let n: usize = doc.sections[state.cursor_section].items.len();
    let h: usize = doc.mission_history.len();
    assert(n == rows(state@, doc@).len());
    if doc.is_section(state.cursor_section, SECTION_MISSION) {
        match state.mission_focus {
            MissionFocus::Active => {
                if n > 0 && state.cursor_item < n - 1 {
                    state.cursor_item = state.cursor_item + 1;
                    return;
                }
                if h > 0 {
                    state.mission_focus = MissionFocus::HistoryHeader;
                    return;
                }
            },
            MissionFocus::HistoryHeader => {
                if state.mission_history_expanded && h > 0 {
                    state.mission_focus = MissionFocus::HistoryItem(0);
                    return;
                }
            },
            MissionFocus::HistoryItem(index) => {
                if h > 0 && index < h - 1 {
                    state.mission_focus = MissionFocus::HistoryItem(index + 1);
                    return;
                }
            },
        }
        if sections > 1 {
            state.cursor_section = 1;
            state.cursor_item = 0;
            state.mission_focus = MissionFocus::Active;
        }
        return;
    }
    if n > 0 && state.cursor_item < n - 1 {
        state.cursor_item = state.cursor_item + 1;
        return;
    }
    let sec: usize = state.cursor_section + 1;
    if sec < sections {
        state.cursor_section = sec;
        state.cursor_item = 0;
    }
}

/// Moves the cursor one row up.
pub fn move_cursor_up(state: &mut TrajectoryEditState, doc: &TrajectoryDoc)
    requires
        !on_mission(old(state)@, doc@) && old(state).cursor_item == 0 ==> old(state).cursor_section
            <= doc@.sections.len(),
    ensures
        final(state)@ == cursor_up(old(state)@, doc@),
{
    if doc.is_section(state.cursor_section, SECTION_MISSION) {
        match state.mission_focus {
            MissionFocus::Active => {
                if state.cursor_item > 0 {
                    state.cursor_item = state.cursor_item - 1;
                }
            },
            MissionFocus::HistoryHeader => {
                state.mission_focus = MissionFocus::Active;
                state.cursor_item = doc.sections[0].items.len().saturating_sub(1);
                assert(doc@.sections[0].items.len() == doc.sections@[0].items@.len());
            },
            MissionFocus::HistoryItem(index) => {
                if index == 0 {
                    state.mission_focus = MissionFocus::HistoryHeader;
                } else {
                    state.mission_focus = MissionFocus::HistoryItem(index - 1);
                }
            },
        }
        return;
    }
    if state.cursor_item > 0 {
        state.cursor_item = state.cursor_item - 1;
        return;
    }
    if state.cursor_section == 0 {
        return;
    }
    let prev: usize = state.cursor_section - 1;
    let n: usize = doc.sections[prev].items.len();
    let h: usize = doc.mission_history.len();
    assert(doc@.sections[prev as int].items.len() == n);
    if doc.is_section(prev, SECTION_MISSION) {
        state.cursor_section = prev;
        if h > 0 {
            if state.mission_history_expanded {
                state.mission_focus = MissionFocus::HistoryItem(h - 1);
            } else {
                state.mission_focus = MissionFocus::HistoryHeader;
            }
        } else {
            state.mission_focus = MissionFocus::Active;
            state.cursor_item = n.saturating_sub(1);
        }
    } else {
        state.cursor_section = prev;
        state.cursor_item = n.saturating_sub(1);
    }
}

/// The first section with content, for `g`.
pub fn first_non_empty_section(doc: &TrajectoryDoc) -> (r: usize)
    ensures
        r == first_content(doc@, 0),
{
    let mut i: usize = 0;
    while i < doc.sections.len()
        invariant
            i <= doc.sections@.len(),
            first_content(doc@, 0) == first_content(doc@, i as int),
        decreases doc.sections@.len() - i,
    {
        assert(doc@.sections[i as int].items.len() == doc.sections@[i as int].items@.len());
        if doc.sections[i].items.len() > 0 || (doc.is_section(i, SECTION_MISSION)
            && doc.mission_history.len() > 0) {
            return i;
        }
        i += 1;
    }
    0
}

/// The last row, for `G`.
pub fn last_item_pos(doc: &TrajectoryDoc) -> (r: (usize, usize))
    ensures
        (r.0 as int, r.1 as int) == last_row(doc@, doc@.sections.len() as int),
{
    let mut i: usize = doc.sections.len();
    while i > 0
        invariant
            i <= doc.sections@.len(),
            last_row(doc@, doc@.sections.len() as int) == last_row(doc@, i as int),
        decreases i,
    {
        assert(doc@.sections[i - 1].items.len() == doc.sections@[i - 1].items@.len());
        let n: usize = doc.sections[i - 1].items.len();
        if n > 0 {
            return (i - 1, n - 1);
        }
        i -= 1;
    }
    (0, 0)
}

// ---------------------------------------------------------------------------
// Changing rows
// ---------------------------------------------------------------------------

/// The item with its box ticked or cleared.
pub open spec fn marked_item(i: ItemView, on: bool) -> ItemView {
    ItemView { is_checkbox: true, checked: Some(on), ..i }
}

/// Space: flips the checkbox of a goal.
pub open spec fn toggle(s: EditView, d: DocView) -> Outcome {
    if !on_goals(s, d) || !(0 <= s.item < rows(s, d).len()) || !rows(s, d)[s.item].is_checkbox {
        quiet(s, d)
    } else {
        let item = rows(s, d)[s.item];
        let on = item.checked == Some(true);
        let flipped = ItemView { checked: Some(!on), ..item };
        let section = SECTION_GOALS@;
        let before = display(item, item.text);
        let after = display(flipped, item.text);
        Outcome {
            state: s,
            doc: with_items(d, s.section, rows(s, d).update(s.item, flipped)),
            actions: seq![
                if on {
                    ActionView::Uncheck { section, before, after }
                } else {
                    ActionView::Check { section, before, after }
                },
            ],
        }
    }
}

/// `x` on a mission: an active mission is completed into the history, a
/// completed one in the unfolded history is revived.
pub open spec fn toggle_mission(s: EditView, d: DocView) -> Outcome {
    match s.focus {
        MissionFocus::Active => match section_named(d, SECTION_MISSION@) {
            Some(m) => {
                let items = d.sections[m].items;
                if !(0 <= s.item < items.len()) {
                    quiet(s, d)
                } else {
                    let item = items[s.item];
                    let rest = items.remove(s.item);
                    let moved = marked_item(item, true);
                    Outcome {
                        state: if rest.len() == 0 {
                            EditView { item: 0, focus: MissionFocus::HistoryHeader, ..s }
                        } else if s.item >= rest.len() {
                            EditView { item: rest.len() - 1, ..s }
                        } else {
                            s
                        },
                        doc: DocView {
                            mission_history: d.mission_history.push(moved),
                            ..with_items(d, m, rest)
                        },
                        actions: seq![
                            ActionView::Check {
                                section: SECTION_MISSION@,
                                before: display(item, item.text),
                                after: display(moved, item.text),
                            },
                        ],
                    }
                }
            },
            None => quiet(s, d),
        },
        MissionFocus::HistoryItem(k) => if !s.expanded || k >= d.mission_history.len() {
            quiet(s, d)
        } else {
            let item = d.mission_history[k as int];
            let rest = d.mission_history.remove(k as int);
            let moved = marked_item(item, false);
            let without = DocView { mission_history: rest, ..d };
            match section_named(d, SECTION_MISSION@) {
                Some(m) => Outcome {
                    state: EditView {
                        item: d.sections[m].items.len() as int,
                        focus: MissionFocus::Active,
                        expanded: s.expanded && rest.len() > 0,
                        ..s
                    },
                    doc: with_items(without, m, d.sections[m].items.push(moved)),
                    actions: seq![
                        ActionView::Uncheck {
                            section: SECTION_MISSION@,
                            before: display(item, item.text),
                            after: display(moved, item.text),
                        },
                    ],
                },
                None => quiet(s, without),
            }
        },
        MissionFocus::HistoryHeader => quiet(s, d),
    }
}

/// Removes the row under the cursor.
pub open spec fn delete(s: EditView, d: DocView) -> Outcome {
    if !in_section(s, d) || rows(s, d).len() == 0 {
        quiet(s, d)
    } else {
        let item = rows(s, d)[s.item];
        let rest = rows(s, d).remove(s.item);
        Outcome {
            state: if s.item > 0 && s.item >= rest.len() {
                EditView { item: s.item - 1, ..s }
            } else {
                s
            },
            doc: with_items(d, s.section, rest),
            actions: seq![
                ActionView::Delete {
                    section: d.sections[s.section].name,
                    before: display(item, item.text),
                },
            ],
        }
    }
}

/// An empty row.
pub open spec fn blank_item(is_checkbox: bool) -> ItemView {
    ItemView {
        text: Seq::empty(),
        is_checkbox,
        checked: if is_checkbox {
            Some(false)
        } else {
            None
        },
        surface_id: None,
    }
}

/// The state after a blank row was opened for writing at `pos`.
pub open spec fn opened(s: EditView, d: DocView, pos: int) -> EditView {
    EditView {
        item: pos,
        mode: EditMode::Insert { focus: InsertFocus::Item },
        buffer: Seq::empty(),
        col: 0,
        context: Seq::empty(),
        start_text: Some(Seq::empty()),
        provisional: on_mission(s, d),
        ..s
    }
}

/// Opens a blank row at `pos` of the cursor's section.
pub open spec fn open_row(s: EditView, d: DocView, pos: int) -> Outcome {
    let boxed = on_mission(s, d) || on_goals(s, d) || on_surfaces(s, d);
    quiet(
        opened(s, d, pos),
        with_items(d, s.section, rows(s, d).insert(pos, blank_item(boxed))),
    )
}

/// Where `o` opens a row.
pub open spec fn below(s: EditView, d: DocView) -> int {
    let n = rows(s, d).len();
    if n == 0 {
        0
    } else if on_mission(s, d) && s.item + 1 > n {
        n as int
    } else {
        s.item + 1
    }
}

/// Opens a blank row under the cursor.
pub open spec fn open_below(s: EditView, d: DocView) -> Outcome {
    if in_section(s, d) {
        open_row(s, d, below(s, d))
    } else {
        quiet(s, d)
    }
}

/// Opens a blank row above the cursor.
pub open spec fn open_above(s: EditView, d: DocView) -> Outcome {
    if in_section(s, d) {
        open_row(
            s,
            d,
            if rows(s, d).len() == 0 {
                0
            } else {
                s.item
            },
        )
    } else {
        quiet(s, d)
    }
}

/// Starts editing the row under the cursor; an empty section gets a first row.
pub open spec fn enter_insert(s: EditView, d: DocView) -> Outcome {
    if !in_section(s, d) {
        quiet(s, d)
    } else {
        let n = rows(s, d).len();
        if n == 0 {
            let boxed = on_mission(s, d) || on_goals(s, d);
            quiet(opened(s, d, 0), with_items(d, s.section, seq![blank_item(boxed)]))
        } else {
            let item = if s.item >= n {
                n - 1
            } else {
                s.item
            };
            let text = rows(s, d)[item].text;
            quiet(
                EditView {
                    item,
                    mode: EditMode::Insert { focus: InsertFocus::Item },
                    buffer: text,
                    col: text.len() as int,
                    context: Seq::empty(),
                    start_text: Some(text),
                    provisional: false,
                    ..s
                },
                d,
            )
        }
    }
}

/// The rows with rows `i` and `i + 1` exchanged.
pub open spec fn swapped(items: Seq<ItemView>, i: int) -> Seq<ItemView> {
    items.update(i, items[i + 1]).update(i + 1, items[i])
}

/// The report that the row under the cursor was moved.
pub open spec fn moved_action(s: EditView, d: DocView) -> ActionView {
    let item = rows(s, d)[s.item];
    ActionView::Move { section: d.sections[s.section].name, before: display(item, item.text) }
}

/// Moves the row under the cursor down.
pub open spec fn move_down(s: EditView, d: DocView) -> Outcome {
    if !in_section(s, d) || s.item + 1 >= rows(s, d).len() {
        quiet(s, d)
    } else {
        Outcome {
            state: EditView { item: s.item + 1, ..s },
            doc: with_items(d, s.section, swapped(rows(s, d), s.item)),
            actions: seq![moved_action(s, d)],
        }
    }
}

/// Moves the row under the cursor up.
pub open spec fn move_up(s: EditView, d: DocView) -> Outcome {
    if !in_section(s, d) || s.item == 0 {
        quiet(s, d)
    } else {
        Outcome {
            state: EditView { item: s.item - 1, ..s },
            doc: with_items(d, s.section, swapped(rows(s, d), s.item - 1)),
            actions: seq![moved_action(s, d)],
        }
    }
}

fn one_action(a: EditAction) -> (r: Vec<EditAction>)
    ensures
        action_views(r@) == seq![a@],
{
    let mut r: Vec<EditAction> = Vec::new();
    r.push(a);
    assert(action_views(r@) =~= seq![a@]);
    r
}

/// No edits to report.
pub(crate) fn no_actions() -> (r: Vec<EditAction>)
    ensures
        action_views(r@) == Seq::<ActionView>::empty(),
{
    let r: Vec<EditAction> = Vec::new();
    assert(action_views(r@) =~= Seq::<ActionView>::empty());
    r
}

/// Flips the checkbox under the cursor, in the section of goals only.
pub fn toggle_checkbox(state: &TrajectoryEditState, doc: &mut TrajectoryDoc) -> (r: Vec<
    EditAction,
>)
    ensures
        (Outcome { state: state@, doc: final(doc)@, actions: action_views(r@) }) == toggle(
            state@,
            old(doc)@,
        ),
{
    let s: usize = state.cursor_section;
    let i: usize = state.cursor_item;
    if !doc.is_section(s, SECTION_GOALS) || i >= doc.sections[s].items.len() {
        return no_actions();
    }
    let ghost before_doc = doc@;
    let mut item = doc.sections[s].items[i].clone();
    assert(item@ == before_doc.sections[s as int].items[i as int]);
    if !item.is_checkbox {
        return no_actions();
    }
    let on = match item.checked {
        Some(b) => b,
        None => false,
    };
    let before = item_display_text(&item, item.text.as_str());
    item.checked = Some(!on);
    let after = item_display_text(&item, item.text.as_str());
    let section = doc.sections[s].name.clone();
    doc.replace_item(s, i, item);
    if on {
        one_action(EditAction::Uncheck { section, before, after })
    } else {
        one_action(EditAction::Check { section, before, after })
    }
}

/// Completes the active mission under the cursor, or revives a completed one.
pub fn toggle_mission_completion(
    state: &mut TrajectoryEditState,
    doc: &mut TrajectoryDoc,
) -> (r: Vec<EditAction>)
    ensures
        (Outcome { state: final(state)@, doc: final(doc)@, actions: action_views(r@) })
            == toggle_mission(old(state)@, old(doc)@),
{
    let ghost before_doc = doc@;
    match state.mission_focus {
        MissionFocus::Active => {
            let m: usize = match doc.find_section(SECTION_MISSION) {
                Some(m) => m,
                None => {
                    return no_actions();
                },
            };
            let i: usize = state.cursor_item;
            if i >= doc.sections[m].items.len() {
                return no_actions();
            }
            let mut item = doc.remove_item(m, i);
            let left: usize = doc.sections[m].items.len();
            assert(doc@.sections[m as int].items.len() == left);
            let before = item_display_text(&item, item.text.as_str());
            item.is_checkbox = true;
            item.checked = Some(true);
            let after = item_display_text(&item, item.text.as_str());
            let ghost history = doc.mission_history@;
            doc.mission_history.push(item);
            assert(item_views(history.push(item)) =~= item_views(history).push(item@));
            if left == 0 {
                state.cursor_item = 0;
                state.mission_focus = MissionFocus::HistoryHeader;
            } else if i >= left {
                state.cursor_item = left - 1;
            }
            let section = String::from_str(SECTION_MISSION);
            one_action(EditAction::Check { section, before, after })
        },
        MissionFocus::HistoryItem(k) => {
            if !state.mission_history_expanded || k >= doc.mission_history.len() {
                return no_actions();
            }
            let ghost history = doc.mission_history@;
            let mut item = doc.mission_history.remove(k);
            assert(item_views(history.remove(k as int)) =~= item_views(history).remove(k as int));
            assert(item@ == before_doc.mission_history[k as int]);
            let before = item_display_text(&item, item.text.as_str());
            item.is_checkbox = true;
            item.checked = Some(false);
            let after = item_display_text(&item, item.text.as_str());
            proof {
                lemma_same_sections(before_doc, doc@, SECTION_MISSION@, 0);
            }
            let m: usize = match doc.find_section(SECTION_MISSION) {
                Some(m) => m,
                None => {
                    return no_actions();
                },
            };
            let n: usize = doc.sections[m].items.len();
            let ghost mid = doc@;
            doc.insert_item(m, n, item);
            assert(mid.sections[m as int].items.insert(n as int, item@)
                =~= mid.sections[m as int].items.push(item@));
            state.cursor_item = n;
            state.mission_focus = MissionFocus::Active;
            if doc.mission_history.len() == 0 {
                state.mission_history_expanded = false;
            }
            let section = String::from_str(SECTION_MISSION);
            one_action(EditAction::Uncheck { section, before, after })
        },
        MissionFocus::HistoryHeader => no_actions(),
    }
}

/// Removes the row under the cursor.
pub fn delete_item(state: &mut TrajectoryEditState, doc: &mut TrajectoryDoc) -> (r: Vec<EditAction>)
    requires
        in_section(old(state)@, old(doc)@) && rows(old(state)@, old(doc)@).len() > 0 ==> old(
            state,
        )@.item < rows(old(state)@, old(doc)@).len(),
    ensures
        (Outcome { state: final(state)@, doc: final(doc)@, actions: action_views(r@) }) == delete(
            old(state)@,
            old(doc)@,
        ),
{
    let s: usize = state.cursor_section;
    if s >= doc.sections.len() || doc.sections[s].items.len() == 0 {
        return no_actions();
    }
    assert(doc@.sections[s as int].items.len() == doc.sections@[s as int].items@.len());
    let section = doc.sections[s].name.clone();
    let item = doc.remove_item(s, state.cursor_item);
    let before = item_display_text(&item, item.text.as_str());
    assert(doc@.sections[s as int].items.len() == doc.sections@[s as int].items@.len());
    if state.cursor_item > 0 && state.cursor_item >= doc.sections[s].items.len() {
        state.cursor_item = state.cursor_item - 1;
    }
    one_action(EditAction::Delete { section, before })
}

fn blank_row(is_checkbox: bool) -> (r: Item)
    ensures
        r@ == blank_item(is_checkbox),
{
    let checked = if is_checkbox {
        Some(false)
    } else {
        None
    };
    Item { text: String::new(), is_checkbox, checked, surface_id: None }
}

fn begin_row(state: &mut TrajectoryEditState, pos: usize, is_mission: bool)
    ensures
        final(state)@ == (EditView {
            item: pos as int,
            mode: EditMode::Insert { focus: InsertFocus::Item },
            buffer: Seq::empty(),
            col: 0,
            context: Seq::empty(),
            start_text: Some(Seq::empty()),
            provisional: is_mission,
            ..old(state)@
        }),
{
    state.cursor_item = pos;
    state.mode = EditMode::Insert { focus: InsertFocus::Item };
    state.edit_buffer = String::new();
    state.cursor_col = 0;
    state.input_ctx_buffer = String::new();
    state.edit_start_text = Some(String::new());
    state.provisional_human_mission = is_mission;
}

/// Opens a blank row under the cursor.
pub fn insert_item_below(state: &mut TrajectoryEditState, doc: &mut TrajectoryDoc)
    requires
        in_section(old(state)@, old(doc)@) && !on_mission(old(state)@, old(doc)@) && rows(
            old(state)@,
            old(doc)@,
        ).len() > 0 ==> old(state)@.item < rows(old(state)@, old(doc)@).len(),
    ensures
        quiet(final(state)@, final(doc)@) == open_below(old(state)@, old(doc)@),
{
    let s: usize = state.cursor_section;
    if s >= doc.sections.len() {
        return;
    }
    assert(doc@.sections[s as int].items.len() == doc.sections@[s as int].items@.len());
    let n: usize = doc.sections[s].items.len();
    let is_mission = doc.is_section(s, SECTION_MISSION);
    let pos: usize = if n == 0 {
        0
    } else if state.cursor_item >= n {
        n
    } else {
        state.cursor_item + 1
    };
    let boxed = is_mission || doc.is_section(s, SECTION_GOALS) || doc.is_section(
        s,
        SECTION_CURRENT_SURFACES,
    );
    doc.insert_item(s, pos, blank_row(boxed));
    begin_row(state, pos, is_mission);
}

/// Opens a blank row above the cursor.
pub fn insert_item_above(state: &mut TrajectoryEditState, doc: &mut TrajectoryDoc)
    requires
        in_section(old(state)@, old(doc)@) && rows(old(state)@, old(doc)@).len() > 0 ==> old(
            state,
        )@.item <= rows(old(state)@, old(doc)@).len(),
    ensures
        quiet(final(state)@, final(doc)@) == open_above(old(state)@, old(doc)@),
{
    let s: usize = state.cursor_section;
    if s >= doc.sections.len() {
        return;
    }
    assert(doc@.sections[s as int].items.len() == doc.sections@[s as int].items@.len());
    let pos: usize = if doc.sections[s].items.len() == 0 {
        0
    } else {
        state.cursor_item
    };
    let is_mission = doc.is_section(s, SECTION_MISSION);
    let boxed = is_mission || doc.is_section(s, SECTION_GOALS) || doc.is_section(
        s,
        SECTION_CURRENT_SURFACES,
    );
    doc.insert_item(s, pos, blank_row(boxed));
    begin_row(state, pos, is_mission);
}

/// Starts editing the row under the cursor.
pub fn enter_insert_mode(state: &mut TrajectoryEditState, doc: &mut TrajectoryDoc)
    ensures
        quiet(final(state)@, final(doc)@) == enter_insert(old(state)@, old(doc)@),
{
    let s: usize = state.cursor_section;
    if s >= doc.sections.len() {
        return;
    }
    assert(doc@.sections[s as int].items.len() == doc.sections@[s as int].items@.len());
    let n: usize = doc.sections[s].items.len();
    if n == 0 {
        let is_mission = doc.is_section(s, SECTION_MISSION);
        let boxed = is_mission || doc.is_section(s, SECTION_GOALS);
        let ghost empty = doc@.sections[s as int].items;
        doc.insert_item(s, 0, blank_row(boxed));
        assert(empty.insert(0, blank_item(boxed)) =~= seq![blank_item(boxed)]);
        begin_row(state, 0, is_mission);
        return;
    }
    if state.cursor_item >= n {
        state.cursor_item = n - 1;
    }
    let text = doc.sections[s].items[state.cursor_item].text.clone();
    state.mode = EditMode::Insert { focus: InsertFocus::Item };
    state.cursor_col = text.as_str().unicode_len();
    state.edit_buffer = text.clone();
    state.input_ctx_buffer = String::new();
    state.edit_start_text = Some(text);
    state.provisional_human_mission = false;
}

fn swap_rows(doc: &mut TrajectoryDoc, s: usize, i: usize)
    requires
        s < old(doc)@.sections.len(),
        i + 1 < old(doc)@.sections[s as int].items.len(),
    ensures
        final(doc)@ == with_items(
            old(doc)@,
            s as int,
            swapped(old(doc)@.sections[s as int].items, i as int),
        ),
{
    let ghost before = doc@;
    let ghost items = before.sections[s as int].items;
    assert(doc.sections@[s as int].items@.len() == items.len());
    let item = doc.remove_item(s, i);
    let left: usize = doc.sections[s].items.len();
    assert(i < left);
    doc.insert_item(s, i + 1, item);
    assert(items.remove(i as int).insert(i + 1, items[i as int]) =~= swapped(items, i as int));
    assert(doc@.sections =~= with_items(before, s as int, swapped(items, i as int)).sections);
}

/// Moves the row under the cursor down by one.
pub fn move_item_down(state: &mut TrajectoryEditState, doc: &mut TrajectoryDoc) -> (r: Vec<
    EditAction,
>)
    ensures
        (Outcome { state: final(state)@, doc: final(doc)@, actions: action_views(r@) })
            == move_down(old(state)@, old(doc)@),
{
    let s: usize = state.cursor_section;
    if s >= doc.sections.len() {
        return no_actions();
    }
    assert(doc@.sections[s as int].items.len() == doc.sections@[s as int].items@.len());
    let i: usize = state.cursor_item;
    let n: usize = doc.sections[s].items.len();
    if n == 0 || i >= n - 1 {
        return no_actions();
    }
    let section = doc.sections[s].name.clone();
    let before = item_display_text(
        &doc.sections[s].items[i],
        doc.sections[s].items[i].text.as_str(),
    );
    swap_rows(doc, s, i);
    state.cursor_item = i + 1;
    one_action(EditAction::Move { section, before })
}

/// Moves the row under the cursor up by one.
pub fn move_item_up(state: &mut TrajectoryEditState, doc: &mut TrajectoryDoc) -> (r: Vec<
    EditAction,
>)
    requires
        in_section(old(state)@, old(doc)@) && old(state)@.item > 0 ==> old(state)@.item < rows(
            old(state)@,
            old(doc)@,
        ).len(),
    ensures
        (Outcome { state: final(state)@, doc: final(doc)@, actions: action_views(r@) }) == move_up(
            old(state)@,
            old(doc)@,
        ),
{
    let s: usize = state.cursor_section;
    let i: usize = state.cursor_item;
    if s >= doc.sections.len() || i == 0 {
        return no_actions();
    }
    assert(doc@.sections[s as int].items.len() == doc.sections@[s as int].items@.len());
    let section = doc.sections[s].name.clone();
    let before = item_display_text(
        &doc.sections[s].items[i],
        doc.sections[s].items[i].text.as_str(),
    );
    swap_rows(doc, s, i - 1);
    state.cursor_item = i - 1;
    one_action(EditAction::Move { section, before })
}

// ---------------------------------------------------------------------------
// Keys in navigation mode
// ---------------------------------------------------------------------------

/// The state without a half-typed `dd`.
pub open spec fn settled(s: EditView) -> EditView {
    EditView { pending_d: None, ..s }
}

/// `d`: the second within a second deletes, any other starts the window.
/// Missions and open surfaces are not deleted this way.
pub open spec fn press_d(s: EditView, d: DocView, now: Moment) -> Outcome {
    if on_mission(s, d) {
        quiet(settled(s), d)
    } else {
        match s.pending_d {
            Some(t) => if t.elapsed_spec(now) <= NANOS_PER_SEC {
                if on_surfaces(s, d) {
                    quiet(settled(s), d)
                } else {
                    delete(settled(s), d)
                }
            } else {
                quiet(EditView { pending_d: Some(now), ..s }, d)
            },
            None => quiet(EditView { pending_d: Some(now), ..s }, d),
        }
    }
}

/// Enter: opens a row under a goal, folds or unfolds the mission history, and
/// edits any other row.
pub open spec fn press_enter(s: EditView, d: DocView) -> Outcome {
    if on_surfaces(s, d) {
        quiet(s, d)
    } else if on_goals(s, d) {
        open_below(s, d)
    } else if on_mission(s, d) {
        match s.focus {
            MissionFocus::Active => enter_insert(s, d),
            MissionFocus::HistoryHeader => if d.mission_history.len() > 0 {
                quiet(EditView { expanded: !s.expanded, ..s }, d)
            } else {
                quiet(s, d)
            },
            MissionFocus::HistoryItem(_) => quiet(
                EditView { expanded: false, focus: MissionFocus::HistoryHeader, ..s },
                d,
            ),
        }
    } else {
        enter_insert(s, d)
    }
}

/// The effect of a key in navigation mode on a clamped cursor.
pub open spec fn nav_key(s: EditView, d: DocView, code: KeyCode, now: Moment) -> Outcome {
    let q = settled(s);
    if code == KeyCode::Char('j') || code == KeyCode::Down {
        quiet(cursor_down(q, d), d)
    } else if code == KeyCode::Char('k') || code == KeyCode::Up {
        quiet(cursor_up(q, d), d)
    } else if code == KeyCode::Char('g') {
        quiet(
            clamp(
                EditView { section: first_content(d, 0), item: 0, focus: MissionFocus::Active, ..q },
                d,
            ),
            d,
        )
    } else if code == KeyCode::Char('G') {
        let last = last_row(d, d.sections.len() as int);
        quiet(
            clamp(EditView { section: last.0, item: last.1, focus: MissionFocus::Active, ..q }, d),
            d,
        )
    } else if code == KeyCode::Char(' ') {
        if on_surfaces(q, d) {
            quiet(q, d)
        } else {
            toggle(q, d)
        }
    } else if code == KeyCode::Char('x') || code == KeyCode::Char('X') {
        if on_surfaces(q, d) {
            quiet(q, d)
        } else if on_mission(q, d) {
            toggle_mission(q, d)
        } else {
            delete(q, d)
        }
    } else if code == KeyCode::Char('d') {
        press_d(s, d, now)
    } else if code == KeyCode::Char('o') {
        if writable(q, d) {
            open_below(q, d)
        } else {
            quiet(q, d)
        }
    } else if code == KeyCode::Char('O') {
        if writable(q, d) {
            open_above(q, d)
        } else {
            quiet(q, d)
        }
    } else if code == KeyCode::Char('i') {
        if writable(q, d) {
            enter_insert(q, d)
        } else {
            quiet(q, d)
        }
    } else if code == KeyCode::Enter {
        press_enter(q, d)
    } else if code == KeyCode::Char('J') {
        if writable(q, d) {
            move_down(q, d)
        } else {
            quiet(q, d)
        }
    } else if code == KeyCode::Char('K') {
        if writable(q, d) {
            move_up(q, d)
        } else {
            quiet(q, d)
        }
    } else {
        quiet(q, d)
    }
}

/// The cursor positions on which a navigation key has a meaning.
pub open spec fn nav_defined(s: EditView, d: DocView, code: KeyCode) -> bool {
    if code == KeyCode::Char('j') || code == KeyCode::Down {
        d.sections.len() == 0 || in_section(s, d)
    } else if code == KeyCode::Char('k') || code == KeyCode::Up {
        !on_mission(s, d) && s.item == 0 ==> s.section <= d.sections.len()
    } else if code == KeyCode::Char('K') {
        writable(s, d) && in_section(s, d) && s.item > 0 ==> s.item < rows(s, d).len()
    } else {
        true
    }
}

/// The cursor is where `clamp` leaves it.
pub open spec fn is_clamped(s: EditView, d: DocView) -> bool {
    clamp(s, d) == s
}

fn handle_enter(state: &mut TrajectoryEditState, doc: &mut TrajectoryDoc)
    requires
        in_section(old(state)@, old(doc)@) && !on_history(old(state)@, old(doc)@) && rows(
            old(state)@,
            old(doc)@,
        ).len() > 0 ==> old(state)@.item < rows(old(state)@, old(doc)@).len(),
    ensures
        quiet(final(state)@, final(doc)@) == press_enter(old(state)@, old(doc)@),
{
    proof {
        lemma_section_names_differ();
    }
    if doc.is_section(state.cursor_section, SECTION_CURRENT_SURFACES) {
        return;
    }
    if doc.is_section(state.cursor_section, SECTION_GOALS) {
        insert_item_below(state, doc);
    } else if doc.is_section(state.cursor_section, SECTION_MISSION) {
        match state.mission_focus {
            MissionFocus::Active => {
                enter_insert_mode(state, doc);
            },
            MissionFocus::HistoryHeader => {
                if doc.mission_history.len() > 0 {
                    state.mission_history_expanded = !state.mission_history_expanded;
                }
            },
            MissionFocus::HistoryItem(_) => {
                state.mission_history_expanded = false;
                state.mission_focus = MissionFocus::HistoryHeader;
            },
        }
    } else {
        enter_insert_mode(state, doc);
    }
}

/// Handles a key in navigation mode.
#[verifier::rlimit(60)]
pub fn handle_nav_key(
    state: &mut TrajectoryEditState,
    doc: &mut TrajectoryDoc,
    key: KeyEvent,
    now: Moment,
) -> (r: Vec<EditAction>)
    requires
        is_clamped(old(state)@, old(doc)@),
        nav_defined(old(state)@, old(doc)@, key.code),
    ensures
        (Outcome { state: final(state)@, doc: final(doc)@, actions: action_views(r@) }) == nav_key(
            old(state)@,
            old(doc)@,
            key.code,
            now,
        ),
{
    let ghost s0 = state@;
    proof {
        lemma_section_names_differ();
        assert(doc.sections@.len() == doc@.sections.len());
    }
    let pending = state.pending_d_at;
    state.pending_d_at = None;
    assert(state@ =~= settled(s0));
    let on_surfaces = doc.is_section(state.cursor_section, SECTION_CURRENT_SURFACES);
    let on_mission = doc.is_section(state.cursor_section, SECTION_MISSION);
    let active = state.mission_focus == MissionFocus::Active;
    let writable = !on_surfaces && (!on_mission || active);
    match key.code {
        KeyCode::Down | KeyCode::Char('j') => {
            move_cursor_down(state, doc);
            no_actions()
        },
        KeyCode::Up | KeyCode::Char('k') => {
            move_cursor_up(state, doc);
            no_actions()
        },
        KeyCode::Char('g') => {
            state.cursor_section = first_non_empty_section(doc);
            state.cursor_item = 0;
            state.mission_focus = MissionFocus::Active;
            clamp_cursor_to_visible_items(state, doc);
            no_actions()
        },
        KeyCode::Char('G') => {
            let (s, i) = last_item_pos(doc);
            state.cursor_section = s;
            state.cursor_item = i;
            state.mission_focus = MissionFocus::Active;
            clamp_cursor_to_visible_items(state, doc);
            no_actions()
        },
        KeyCode::Char(' ') => {
            if on_surfaces {
                return no_actions();
            }
            toggle_checkbox(state, doc)
        },
        KeyCode::Char('x') | KeyCode::Char('X') => {
            if on_surfaces {
                no_actions()
            } else if on_mission {
                toggle_mission_completion(state, doc)
            } else {
                delete_item(state, doc)
            }
        },
        KeyCode::Char('d') => {
            if on_mission {
                return no_actions();
            }
            if let Some(t) = pending {
                if t.elapsed(now) <= NANOS_PER_SEC {
                    if on_surfaces {
                        return no_actions();
                    }
                    return delete_item(state, doc);
                }
            }
            state.pending_d_at = Some(now);
            no_actions()
        },
        KeyCode::Char('o') => {
            if writable {
                insert_item_below(state, doc);
            }
            no_actions()
        },
        KeyCode::Char('O') => {
            if writable {
                insert_item_above(state, doc);
            }
            no_actions()
        },
        KeyCode::Char('i') => {
            if writable {
                enter_insert_mode(state, doc);
            }
            no_actions()
        },
        KeyCode::Enter => {
            handle_enter(state, doc);
            no_actions()
        },
        KeyCode::Char('J') => {
            if writable {
                return move_item_down(state, doc);
            }
            no_actions()
        },
        KeyCode::Char('K') => {
            if writable {
                return move_item_up(state, doc);
            }
            no_actions()
        },
        _ => no_actions(),
    }
}

// ---------------------------------------------------------------------------
// Keys in insert mode
// ---------------------------------------------------------------------------

/// The text with `c` put in at `col`, or at the end when `col` is past it.
pub open spec fn char_inserted(s: Seq<char>, col: int, c: char) -> Seq<char> {
    if 0 <= col <= s.len() {
        s.insert(col, c)
    } else {
        s.push(c)
    }
}

/// The text without the character at `col`; the same when there is none.
pub open spec fn char_removed(s: Seq<char>, col: int) -> Seq<char> {
    if 0 <= col < s.len() {
        s.remove(col)
    } else {
        s
    }
}

/// The start of the run of whitespace that ends before `i`.
pub open spec fn spaces_start(s: Seq<char>, i: int) -> int
    decreases i,
{
    if 0 < i <= s.len() && is_space(s[i - 1]) {
        spaces_start(s, i - 1)
    } else {
        i
    }
}

/// The start of the run of non-whitespace that ends before `i`.
pub open spec fn word_start(s: Seq<char>, i: int) -> int
    decreases i,
{
    if 0 < i <= s.len() && !is_space(s[i - 1]) {
        word_start(s, i - 1)
    } else {
        i
    }
}

/// Where the word before `col` begins, whitespace between it and `col` included.
pub open spec fn word_before(s: Seq<char>, col: int) -> int {
    word_start(s, spaces_start(s, col))
}

/// The word before a column begins at or before it.
pub proof fn lemma_word_before_bounds(s: Seq<char>, col: int)
    requires
        0 <= col,
    ensures
        0 <= word_before(s, col) <= col,
{
    lemma_spaces_start_bounds(s, col);
    lemma_word_start_bounds(s, spaces_start(s, col));
}

proof fn lemma_spaces_start_bounds(s: Seq<char>, i: int)
    requires
        0 <= i,
    ensures
        0 <= spaces_start(s, i) <= i,
    decreases i,
{
    if 0 < i <= s.len() && is_space(s[i - 1]) {
        lemma_spaces_start_bounds(s, i - 1);
    }
}

proof fn lemma_word_start_bounds(s: Seq<char>, i: int)
    requires
        0 <= i,
    ensures
        0 <= word_start(s, i) <= i,
    decreases i,
{
    if 0 < i <= s.len() && !is_space(s[i - 1]) {
        lemma_word_start_bounds(s, i - 1);
    }
}

/// The mission text that is committed for a row written by hand.
pub open spec fn human_mission(text: Seq<char>) -> Seq<char> {
    let t = trim(text);
    if starts_with(t, "[h]"@) {
        t
    } else {
        "[h] "@ + t
    }
}

/// The state after insert mode was left.
pub open spec fn left_insert(s: EditView) -> EditView {
    EditView {
        mode: EditMode::Nav,
        buffer: Seq::empty(),
        col: 0,
        start_text: None,
        provisional: false,
        ..s
    }
}

/// Writes `text` into the row under the cursor and reports the change, if it
/// is one.
pub open spec fn write_back(s: EditView, d: DocView, text: Seq<char>) -> Outcome {
    if !in_section(s, d) || !(0 <= s.item < rows(s, d).len()) {
        quiet(left_insert(s), d)
    } else {
        let item = rows(s, d)[s.item];
        let was = match s.start_text {
            Some(t) => t,
            None => item.text,
        };
        if text == was {
            quiet(left_insert(s), d)
        } else {
            Outcome {
                state: left_insert(s),
                doc: with_items(d, s.section, rows(s, d).update(s.item, ItemView { text, ..item })),
                actions: seq![
                    ActionView::Edit {
                        section: d.sections[s.section].name,
                        before: display(item, was),
                        after: display(item, text),
                    },
                ],
            }
        }
    }
}

/// Esc in insert mode: a new mission row is marked as the user's or, left
/// blank, taken away again; any other row gets the buffer's text.
pub open spec fn commit(s: EditView, d: DocView) -> Outcome {
    if s.provisional && on_mission(s, d) {
        if trim(s.buffer).len() == 0 {
            let out = EditView { focus: MissionFocus::Active, ..left_insert(s) };
            if 0 <= s.item < rows(s, d).len() {
                let rest = rows(s, d).remove(s.item);
                quiet(
                    EditView {
                        item: if s.item <= last_or_header(rest) {
                            s.item
                        } else {
                            last_or_header(rest)
                        },
                        ..out
                    },
                    with_items(d, s.section, rest),
                )
            } else {
                quiet(out, d)
            }
        } else {
            write_back(s, d, human_mission(s.buffer))
        }
    } else {
        write_back(s, d, s.buffer)
    }
}

/// Backspace on a blank goal below another: the row goes, and the one above is
/// edited at its end.
pub open spec fn collapses(s: EditView, d: DocView) -> bool {
    trim(s.buffer).len() == 0 && on_goals(s, d) && s.item > 0
}

/// The effect of that collapse.
pub open spec fn collapse(s: EditView, d: DocView) -> Outcome {
    if s.item >= rows(s, d).len() {
        quiet(s, d)
    } else {
        let text = rows(s, d)[s.item - 1].text;
        quiet(
            EditView {
                item: s.item - 1,
                buffer: text,
                col: text.len() as int,
                start_text: Some(text),
                ..s
            },
            with_items(d, s.section, rows(s, d).remove(s.item)),
        )
    }
}

/// The effect of a key in insert mode, with the cursor in the given buffer.
pub open spec fn insert_key(s: EditView, d: DocView, key: KeyEvent, focus: InsertFocus) -> Outcome {
    let on_item = focus == InsertFocus::Item;
    let len = s.buffer.len() as int;
    match key.code {
        KeyCode::Esc => commit(s, d),
        KeyCode::Tab => quiet(
            EditView {
                mode: EditMode::Insert {
                    focus: if on_item {
                        InsertFocus::InputCtx
                    } else {
                        InsertFocus::Item
                    },
                },
                ..s
            },
            d,
        ),
        KeyCode::Left => if on_item && s.col > 0 {
            quiet(EditView { col: s.col - 1, ..s }, d)
        } else {
            quiet(s, d)
        },
        KeyCode::Right => if on_item && s.col < len {
            quiet(EditView { col: s.col + 1, ..s }, d)
        } else {
            quiet(s, d)
        },
        KeyCode::Home => if on_item {
            quiet(EditView { col: 0, ..s }, d)
        } else {
            quiet(s, d)
        },
        KeyCode::End => if on_item {
            quiet(EditView { col: len, ..s }, d)
        } else {
            quiet(s, d)
        },
        KeyCode::Backspace => if key.modifiers == KeyModifiers::Alt {
            let w = word_before(s.buffer, s.col);
            if on_item && w < s.col {
                quiet(
                    EditView {
                        buffer: s.buffer.take(w) + s.buffer.skip(s.col),
                        col: w,
                        ..s
                    },
                    d,
                )
            } else {
                quiet(s, d)
            }
        } else if key.modifiers == KeyModifiers::Plain && on_item && collapses(s, d) {
            collapse(s, d)
        } else if on_item {
            if s.col > 0 {
                quiet(
                    EditView { buffer: char_removed(s.buffer, s.col - 1), col: s.col - 1, ..s },
                    d,
                )
            } else {
                quiet(s, d)
            }
        } else if s.context.len() > 0 {
            quiet(EditView { context: s.context.drop_last(), ..s }, d)
        } else {
            quiet(s, d)
        },
        KeyCode::Delete => if on_item {
            quiet(EditView { buffer: char_removed(s.buffer, s.col), ..s }, d)
        } else {
            quiet(s, d)
        },
        KeyCode::Char(c) => if key.modifiers == KeyModifiers::Control && c == 'a' {
            if on_item {
                quiet(EditView { col: 0, ..s }, d)
            } else {
                quiet(s, d)
            }
        } else if key.modifiers == KeyModifiers::Control && c == 'e' {
            if on_item {
                quiet(EditView { col: len, ..s }, d)
            } else {
                quiet(s, d)
            }
        } else if key.modifiers == KeyModifiers::Plain || key.modifiers == KeyModifiers::Shift {
            if on_item {
                quiet(
                    EditView { buffer: char_inserted(s.buffer, s.col, c), col: s.col + 1, ..s },
                    d,
                )
            } else {
                quiet(EditView { context: s.context.push(c), ..s }, d)
            }
        } else {
            quiet(s, d)
        },
        _ => quiet(s, d),
    }
}

/// The columns on which a key in insert mode has a meaning.
pub open spec fn insert_defined(s: EditView, key: KeyEvent, focus: InsertFocus) -> bool {
    &&& focus == InsertFocus::Item && key.code == KeyCode::Backspace && key.modifiers
        == KeyModifiers::Alt ==> s.col <= s.buffer.len()
    &&& focus == InsertFocus::Item && key.code is Char && (key.modifiers == KeyModifiers::Plain
        || key.modifiers == KeyModifiers::Shift) ==> s.col < usize::MAX
}

/// Inserts a character at the given column, or at the end.
pub fn insert_char_at(s: &mut String, char_col: usize, c: char)
    ensures
        final(s)@ == char_inserted(old(s)@, char_col as int, c),
{
    let mut v = chars_of(s.as_str());
    if char_col <= v.len() {
        v.insert(char_col, c);
    } else {
        v.push(c);
    }
    *s = string_from(&v);
}

/// Removes and returns the character at the given column, if there is one.
pub fn remove_char_at(s: &mut String, char_col: usize) -> (r: Option<char>)
    ensures
        final(s)@ == char_removed(old(s)@, char_col as int),
        r == if char_col < old(s)@.len() {
            Some(old(s)@[char_col as int])
        } else {
            None
        },
{
    let mut v = chars_of(s.as_str());
    if char_col < v.len() {
        let c = v.remove(char_col);
        *s = string_from(&v);
        Some(c)
    } else {
        None
    }
}

/// The start of the word before the cursor.
pub fn previous_word_start(s: &str, cursor_col: usize) -> (r: usize)
    requires
        cursor_col <= s@.len(),
    ensures
        r == word_before(s@, cursor_col as int),
        r <= cursor_col,
{
    let v = chars_of(s);
    let mut i: usize = cursor_col;
    while i > 0 && is_space_char(v[i - 1])
        invariant
            v@ == s@,
            i <= cursor_col <= s@.len(),
            spaces_start(s@, cursor_col as int) == spaces_start(s@, i as int),
        decreases i,
    {
        i -= 1;
    }
    while i > 0 && !is_space_char(v[i - 1])
        invariant
            v@ == s@,
            i <= cursor_col <= s@.len(),
            word_before(s@, cursor_col as int) == word_start(s@, i as int),
        decreases i,
    {
        i -= 1;
    }
    i
}

fn leave_insert(state: &mut TrajectoryEditState)
    ensures
        final(state)@ == left_insert(old(state)@),
{
    state.mode = EditMode::Nav;
    state.edit_buffer = String::new();
    state.cursor_col = 0;
    state.edit_start_text = None;
    state.provisional_human_mission = false;
}

fn write_text(state: &mut TrajectoryEditState, doc: &mut TrajectoryDoc, text: String) -> (r: Vec<
    EditAction,
>)
    ensures
        (Outcome { state: final(state)@, doc: final(doc)@, actions: action_views(r@) })
            == write_back(old(state)@, old(doc)@, text@),
{
    let s: usize = state.cursor_section;
    let i: usize = state.cursor_item;
    assert(doc.sections@.len() == doc@.sections.len());
    if s >= doc.sections.len() || i >= doc.sections[s].items.len() {
        leave_insert(state);
        return no_actions();
    }
    let mut item = doc.sections[s].items[i].clone();
    assert(item@ == doc@.sections[s as int].items[i as int]);
    let was = match &state.edit_start_text {
        Some(t) => t.clone(),
        None => item.text.clone(),
    };
    leave_insert(state);
    if same(text.as_str(), was.as_str()) {
        return no_actions();
    }
    let section = doc.sections[s].name.clone();
    let before = item_display_text(&item, was.as_str());
    let after = item_display_text(&item, text.as_str());
    item.text = text;
    doc.replace_item(s, i, item);
    one_action(EditAction::Edit { section, before, after })
}

/// Leaves insert mode and writes the buffer back into the document.
pub fn commit_insert(state: &mut TrajectoryEditState, doc: &mut TrajectoryDoc) -> (r: Vec<
    EditAction,
>)
    ensures
        (Outcome { state: final(state)@, doc: final(doc)@, actions: action_views(r@) }) == commit(
            old(state)@,
            old(doc)@,
        ),
{
    let s: usize = state.cursor_section;
    let i: usize = state.cursor_item;
    assert(doc.sections@.len() == doc@.sections.len());
    if state.provisional_human_mission && doc.is_section(s, SECTION_MISSION) {
        let t = trim_chars(&chars_of(state.edit_buffer.as_str()));
        if t.len() == 0 {
            assert(doc@.sections[s as int].items.len() == doc.sections@[s as int].items@.len());
            if i < doc.sections[s].items.len() {
                let _row = doc.remove_item(s, i);
                let last: usize = doc.sections[s].items.len().saturating_sub(1);
                if i > last {
                    state.cursor_item = last;
                }
            }
            leave_insert(state);
            state.mission_focus = MissionFocus::Active;
            return no_actions();
        }
        let text = if starts(&t, "[h]") {
            string_from(&t)
        } else {
            concat2("[h] ", string_from(&t).as_str())
        };
        return write_text(state, doc, text);
    }
    let text = state.edit_buffer.clone();
    write_text(state, doc, text)
}

/// Handles a key in insert mode.
pub fn handle_insert_key(
    state: &mut TrajectoryEditState,
    doc: &mut TrajectoryDoc,
    key: KeyEvent,
) -> (r: Vec<EditAction>)
    requires
        old(state).mode matches EditMode::Insert { focus } ==> insert_defined(
            old(state)@,
            key,
            focus,
        ),
    ensures
        (Outcome { state: final(state)@, doc: final(doc)@, actions: action_views(r@) }) == (
        match old(state).mode {
            EditMode::Insert { focus } => insert_key(old(state)@, old(doc)@, key, focus),
            EditMode::Nav => quiet(old(state)@, old(doc)@),
        }),
{
    let focus = match state.mode {
        EditMode::Insert { focus } => focus,
        EditMode::Nav => {
            return no_actions();
        },
    };
    let on_item = focus == InsertFocus::Item;
    match key.code {
        KeyCode::Esc => {
            return commit_insert(state, doc);
        },
        KeyCode::Tab => {
            state.mode = EditMode::Insert {
                focus: if on_item {
                    InsertFocus::InputCtx
                } else {
                    InsertFocus::Item
                },
            };
        },
        KeyCode::Left => {
            if on_item {
                state.cursor_col = state.cursor_col.saturating_sub(1);
            }
        },
        KeyCode::Right => {
            if on_item {
                let len: usize = state.edit_buffer.as_str().unicode_len();
                if state.cursor_col < len {
                    state.cursor_col = state.cursor_col + 1;
                }
            }
        },
        KeyCode::Home => {
            if on_item {
                state.cursor_col = 0;
            }
        },
        KeyCode::End => {
            if on_item {
                state.cursor_col = state.edit_buffer.as_str().unicode_len();
            }
        },
        KeyCode::Backspace => {
            if key.modifiers == KeyModifiers::Alt {
                if on_item {
                    let col: usize = state.cursor_col;
                    let start: usize = previous_word_start(state.edit_buffer.as_str(), col);
                    if start < col {
                        let v = chars_of(state.edit_buffer.as_str());
                        let mut kept = crate::text::slice_chars(&v, 0, start);
                        let mut tail = crate::text::slice_chars(&v, col, v.len());
                        kept.append(&mut tail);
                        assert(kept@ =~= v@.take(start as int) + v@.skip(col as int));
                        state.edit_buffer = string_from(&kept);
                        state.cursor_col = start;
                    }
                }
            } else if key.modifiers == KeyModifiers::Plain && on_item && trim_chars(
                &chars_of(state.edit_buffer.as_str()),
            ).len() == 0 && doc.is_section(state.cursor_section, SECTION_GOALS)
                && state.cursor_item > 0 {
                let s: usize = state.cursor_section;
                let i: usize = state.cursor_item;
                assert(doc@.sections[s as int].items.len() == doc.sections@[s as int].items@.len());
                if i >= doc.sections[s].items.len() {
                    return no_actions();
                }
                let text = doc.sections[s].items[i - 1].text.clone();
                let _row = doc.remove_item(s, i);
                state.cursor_item = i - 1;
                state.cursor_col = text.as_str().unicode_len();
                state.edit_buffer = text.clone();
                state.edit_start_text = Some(text);
            } else if on_item {
                if state.cursor_col > 0 {
                    let col: usize = state.cursor_col - 1;
                    let mut buffer = state.edit_buffer.clone();
                    let _c = remove_char_at(&mut buffer, col);
                    state.edit_buffer = buffer;
                    state.cursor_col = col;
                }
            } else {
                let mut v = chars_of(state.input_ctx_buffer.as_str());
                let _c = v.pop();
                state.input_ctx_buffer = string_from(&v);
            }
        },
        KeyCode::Delete => {
            if on_item {
                let mut buffer = state.edit_buffer.clone();
                let _c = remove_char_at(&mut buffer, state.cursor_col);
                state.edit_buffer = buffer;
            }
        },
        KeyCode::Char(c) => {
            if key.modifiers == KeyModifiers::Control && c == 'a' {
                if on_item {
                    state.cursor_col = 0;
                }
            } else if key.modifiers == KeyModifiers::Control && c == 'e' {
                if on_item {
                    state.cursor_col = state.edit_buffer.as_str().unicode_len();
                }
            } else if key.modifiers == KeyModifiers::Plain || key.modifiers == KeyModifiers::Shift {
                if on_item {
                    let mut buffer = state.edit_buffer.clone();
                    insert_char_at(&mut buffer, state.cursor_col, c);
                    state.edit_buffer = buffer;
                    state.cursor_col = state.cursor_col + 1;
                } else {
                    let mut buffer = state.input_ctx_buffer.clone();
                    buffer.push(c);
                    state.input_ctx_buffer = buffer;
                }
            }
        },
        _ => {},
    }
    no_actions()
}

// ---------------------------------------------------------------------------
// Any key
// ---------------------------------------------------------------------------

/// State, document and actions after one key press.
pub open spec fn key_outcome(s: EditView, d: DocView, key: KeyEvent, now: Moment) -> Outcome {
    match s.mode {
        EditMode::Nav => nav_key(clamp(s, d), d, key.code, now),
        EditMode::Insert { focus } => insert_key(s, d, key, focus),
    }
}

/// The states on which a key press has a meaning.
pub open spec fn key_defined(s: EditView, d: DocView, key: KeyEvent) -> bool {
    match s.mode {
        EditMode::Nav => nav_defined(clamp(s, d), d, key.code),
        EditMode::Insert { focus } => insert_defined(s, key, focus),
    }
}

/// Whether a key press has a meaning.
pub fn key_is_defined(state: &TrajectoryEditState, doc: &TrajectoryDoc, key: KeyEvent) -> (r: bool)
    ensures
        r == key_defined(state@, doc@, key),
{
    match state.mode {
        EditMode::Nav => {
            let mut s = state.clone();
            clamp_cursor_to_visible_items(&mut s, doc);
            let inside = s.cursor_section < doc.sections.len();
            let missions = doc.is_section(s.cursor_section, SECTION_MISSION);
            match key.code {
                KeyCode::Char('j') | KeyCode::Down => doc.sections.len() == 0 || inside,
                KeyCode::Char('k') | KeyCode::Up => missions || s.cursor_item > 0
                    || s.cursor_section <= doc.sections.len(),
                KeyCode::Char('K') => {
                    let folded = missions && s.mission_focus != MissionFocus::Active;
                    !inside || folded || doc.is_section(
                        s.cursor_section,
                        SECTION_CURRENT_SURFACES,
                    ) || s.cursor_item == 0 || s.cursor_item
                        < doc.sections[s.cursor_section].items.len()
                },
                _ => true,
            }
        },
        EditMode::Insert { focus } => {
            if focus != InsertFocus::Item {
                return true;
            }
            match key.code {
                KeyCode::Backspace => key.modifiers != KeyModifiers::Alt || state.cursor_col
                    <= state.edit_buffer.as_str().unicode_len(),
                KeyCode::Char(_) => (key.modifiers != KeyModifiers::Plain && key.modifiers
                    != KeyModifiers::Shift) || state.cursor_col < usize::MAX,
                _ => true,
            }
        },
    }
}

/// Processes one key press and returns the actions to record on the next save.
pub fn handle_key(
    state: &mut TrajectoryEditState,
    doc: &mut TrajectoryDoc,
    key: KeyEvent,
    now: Moment,
) -> (r: Vec<EditAction>)
    requires
        key_defined(old(state)@, old(doc)@, key),
    ensures
        (Outcome { state: final(state)@, doc: final(doc)@, actions: action_views(r@) })
            == key_outcome(old(state)@, old(doc)@, key, now),
{
    match state.mode {
        EditMode::Nav => {
            proof {
                lemma_clamp_idempotent(state@, doc@);
            }
            clamp_cursor_to_visible_items(state, doc);
            handle_nav_key(state, doc, key, now)
        },
        EditMode::Insert { .. } => handle_insert_key(state, doc, key),
    }
}

/// A clamped cursor stays where it is.
pub proof fn lemma_clamp_idempotent(s: EditView, d: DocView)
    ensures
        is_clamped(clamp(s, d), d),
{
}

// ---------------------------------------------------------------------------
// Saving
// ---------------------------------------------------------------------------

/// What kind of change an event reports.
#[derive(Debug, Clone, Copy, PartialEq, Eq, Structural)]
pub enum EventKind {
    Edit,
    Delete,
    Check,
    Uncheck,
    Move,
}

/// An entry of the event log, caused by the user. The writer adds the time.
#[derive(Debug, Clone, PartialEq, Eq)]
pub struct EditEvent {
    pub kind: EventKind,
    pub section: String,
    pub before: Option<String>,
    pub after: Option<String>,
    pub snapshot: u32,
    pub user_explanation: Option<String>,
}

/// What an event says.
#[verifier::ext_equal]
pub struct EventView {
    pub kind: EventKind,
    pub section: Seq<char>,
    pub before: Option<Seq<char>>,
    pub after: Option<Seq<char>>,
    pub snapshot: u32,
    pub user_explanation: Option<Seq<char>>,
}

impl View for EditEvent {
    type V = EventView;

    open spec fn view(&self) -> EventView {
        EventView {
            kind: self.kind,
            section: self.section@,
            before: opt_view(self.before),
            after: opt_view(self.after),
            snapshot: self.snapshot,
            user_explanation: opt_view(self.user_explanation),
        }
    }
}

/// What each of the events says.
pub open spec fn event_views(s: Seq<EditEvent>) -> Seq<EventView> {
    s.map_values(|e: EditEvent| e@)
}

/// The event that reports an action, without an explanation.
pub open spec fn event_of(a: ActionView, n: u32) -> EventView {
    match a {
        ActionView::Edit { section, before, after } => EventView {
            kind: EventKind::Edit,
            section,
            before: Some(before),
            after: Some(after),
            snapshot: n,
            user_explanation: None,
        },
        ActionView::Delete { section, before } => EventView {
            kind: EventKind::Delete,
            section,
            before: Some(before),
            after: None,
            snapshot: n,
            user_explanation: None,
        },
        ActionView::Check { section, before, after } => EventView {
            kind: EventKind::Check,
            section,
            before: Some(before),
            after: Some(after),
            snapshot: n,
            user_explanation: None,
        },
        ActionView::Uncheck { section, before, after } => EventView {
            kind: EventKind::Uncheck,
            section,
            before: Some(before),
            after: Some(after),
            snapshot: n,
            user_explanation: None,
        },
        ActionView::Move { section, before } => EventView {
            kind: EventKind::Move,
            section,
            before: Some(before),
            after: None,
            snapshot: n,
            user_explanation: None,
        },
    }
}

/// The user's explanation: the trimmed context buffer, unless it is blank.
pub open spec fn explanation(context: Seq<char>) -> Option<Seq<char>> {
    if trim(context).len() == 0 {
        None
    } else {
        Some(trim(context))
    }
}

/// The events of a save: one per action, the last with the explanation.
pub open spec fn events_of(actions: Seq<ActionView>, n: u32, why: Option<Seq<char>>) -> Seq<
    EventView,
> {
    Seq::new(
        actions.len(),
        |k: int|
            if k == actions.len() - 1 && why is Some {
                EventView { user_explanation: why, ..event_of(actions[k], n) }
            } else {
                event_of(actions[k], n)
            },
    )
}

/// What a save writes besides the document: the snapshot's number, the user's
/// explanation and the events.
#[derive(Debug, Clone)]
pub struct SavePlan {
    pub snapshot: u32,
    pub user_why: Option<String>,
    pub events: Vec<EditEvent>,
}

/// The event that reports an action.
pub fn action_to_event(action: &EditAction, snapshot: u32) -> (r: EditEvent)
    ensures
        r@ == event_of(action@, snapshot),
{
    match action {
        EditAction::Edit { section, before, after } => EditEvent {
            kind: EventKind::Edit,
            section: section.clone(),
            before: Some(before.clone()),
            after: Some(after.clone()),
            snapshot,
            user_explanation: None,
        },
        EditAction::Delete { section, before } => EditEvent {
            kind: EventKind::Delete,
            section: section.clone(),
            before: Some(before.clone()),
            after: None,
            snapshot,
            user_explanation: None,
        },
        EditAction::Check { section, before, after } => EditEvent {
            kind: EventKind::Check,
            section: section.clone(),
            before: Some(before.clone()),
            after: Some(after.clone()),
            snapshot,
            user_explanation: None,
        },
        EditAction::Uncheck { section, before, after } => EditEvent {
            kind: EventKind::Uncheck,
            section: section.clone(),
            before: Some(before.clone()),
            after: Some(after.clone()),
            snapshot,
            user_explanation: None,
        },
        EditAction::Move { section, before } => EditEvent {
            kind: EventKind::Move,
            section: section.clone(),
            before: Some(before.clone()),
            after: None,
            snapshot,
            user_explanation: None,
        },
    }
}

/// Numbers the next snapshot, stamps the document with it and works out what
/// the save writes. `highest_snapshot` is the highest number on disk.
pub fn save(
    doc: &mut TrajectoryDoc,
    state: &TrajectoryEditState,
    edit_actions: &Vec<EditAction>,
    highest_snapshot: u32,
) -> (r: SavePlan)
    requires
        highest_snapshot < u32::MAX,
    ensures
        r.snapshot == highest_snapshot + 1,
        final(doc)@ == (DocView { snapshot: Some(r.snapshot), ..old(doc)@ }),
        opt_view(r.user_why) == explanation(state.input_ctx_buffer@),
        event_views(r.events@) == events_of(
            action_views(edit_actions@),
            r.snapshot,
            explanation(state.input_ctx_buffer@),
        ),
{
    let n: u32 = highest_snapshot + 1;
    doc.frontmatter.snapshot = Some(n);
    let t = trim_str(state.input_ctx_buffer.as_str());
    let why: Option<String> = if t.as_str().unicode_len() == 0 {
        None
    } else {
        Some(t)
    };
    let ghost acts = action_views(edit_actions@);
    let ghost wanted = events_of(acts, n, opt_view(why));
    let mut events: Vec<EditEvent> = Vec::new();
    let mut i: usize = 0;
    while i < edit_actions.len()
        invariant
            i <= edit_actions@.len(),
            acts == action_views(edit_actions@),
            wanted == events_of(acts, n, opt_view(why)),
            event_views(events@) == wanted.take(i as int),
        decreases edit_actions@.len() - i,
    {
        let mut e = action_to_event(&edit_actions[i], n);
        assert(acts[i as int] == edit_actions@[i as int]@);
        if i + 1 == edit_actions.len() && why.is_some() {
            e.user_explanation = crate::text::clone_opt(&why);
        }
        assert(e@ == wanted[i as int]);
        let ghost before = events@;
        events.push(e);
        assert(event_views(events@) =~= event_views(before).push(e@));
        assert(wanted.take(i + 1) =~= wanted.take(i as int).push(wanted[i as int]));
        i += 1;
    }
    assert(wanted.take(wanted.len() as int) =~= wanted);
    SavePlan { snapshot: n, user_why: why, events }
}

} // verus!
