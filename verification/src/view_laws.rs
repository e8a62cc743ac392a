//! What the trajectory pane shows, said of the document's rows.
use crate::numeral::decimal;
use crate::search::find;
use crate::style::{cursor_style, line_text, sp, Color, SpanView, Style};
use crate::surface::{kind_of_glyph, SurfaceKind};
use crate::text::trim;
use crate::text_laws::{is_tight, trimming_takes_the_outer_blanks};
use crate::trajectory::{DocView, ItemView, SectionView};
use crate::trajectory_edit::{display, EditMode, EditView, MissionFocus};
use crate::trajectory_view::{
    active_line, active_lines, annotation_start, block_lines, body_cursor, body_lines,
    context_lines, field_lines, followed_scroll, goal_spans, head_end, history_line, history_title,
    intent_of, item_lines, line_number, mission_cursor, mission_lines, mission_text, nav_at,
    row_spans, rows_lines, title_style, HintsView,
};
use crate::wrap::wrapped;
use vstd::prelude::*;

verus! {

// ---------------------------------------------------------------------------
// Lines
// ---------------------------------------------------------------------------

proof fn lemma_text_of_two(a: Seq<SpanView>, b: Seq<SpanView>)
    ensures
        line_text(a + b) == line_text(a) + line_text(b),
    decreases b.len(),
{
    if b.len() == 0 {
        assert(a + b =~= a);
    } else {
        assert((a + b).drop_last() =~= a + b.drop_last());
        assert((a + b).last() == b.last());
        lemma_text_of_two(a, b.drop_last());
        assert(line_text(a) + line_text(b) =~= line_text(a) + line_text(b.drop_last())
            + b.last().text);
    }
}

proof fn lemma_text_of_one(s: SpanView)
    ensures
        line_text(seq![s]) == s.text,
{
    assert(seq![s].drop_last() =~= Seq::<SpanView>::empty());
    assert(line_text(Seq::<SpanView>::empty()) =~= Seq::<char>::empty());
    assert(line_text(seq![s]) =~= s.text);
}

/// A line's text is that of its spans, one after the other.
pub proof fn a_line_shows_its_spans_in_order(a: Seq<SpanView>, s: SpanView, b: Seq<SpanView>)
    ensures
        line_text(a + seq![s] + b) == line_text(a) + s.text + line_text(b),
        line_text(seq![s]) == s.text,
        line_text(Seq::empty()).len() == 0,
{
    lemma_text_of_two(a + seq![s], b);
    lemma_text_of_two(a, seq![s]);
    lemma_text_of_one(s);
}

proof fn lemma_goal_text(t: Seq<char>, base: Style)
    ensures
        line_text(goal_spans(t, base)) == t,
        goal_spans(t, base).len() > 0,
        goal_spans(t, base)[0].style == base,
{
    reveal_strlit("   → ");
    crate::search::lemma_find_from(t, "   → "@, 0);
    match find(t, "   → "@) {
        Some(b) => {
            let x = sp(t.take(b), base);
            let y = sp(t.skip(b), crate::style::recolored(base, Color::DarkGray));
            assert(seq![x, y] =~= seq![x] + seq![y]);
            lemma_text_of_two(seq![x], seq![y]);
            lemma_text_of_one(x);
            lemma_text_of_one(y);
            assert(t =~= t.take(b) + t.skip(b));
        },
        None => {
            lemma_text_of_one(sp(t, base));
        },
    }
}

proof fn lemma_row_text(t: Seq<char>, dim: bool, base: Style)
    ensures
        line_text(row_spans(t, dim, base)) == t,
{
    reveal_strlit(" · ");
    reveal_strlit("   ← goal:");
    reveal_strlit("   overall:");
    reveal_strlit("   ask:");
    crate::search::lemma_find_from(t, " · "@, 0);
    crate::search::lemma_find_from(t, "   ← goal:"@, 0);
    crate::search::lemma_find_from(t, "   overall:"@, 0);
    crate::search::lemma_find_from(t, "   ask:"@, 0);
    let h = head_end(t);
    let b = annotation_start(t);
    assert(0 <= h <= b <= t.len());
    let all = row_spans(t, dim, base);
    let front = if b < t.len() {
        all.drop_last()
    } else {
        all
    };
    let known = t.len() > 0 && kind_of_glyph(t[0]) is Some;
    if known {
        assert(front.len() == 2);
        assert(front =~= seq![front[0]] + seq![front[1]]);
        lemma_text_of_two(seq![front[0]], seq![front[1]]);
        lemma_text_of_one(front[0]);
        lemma_text_of_one(front[1]);
        assert(t.take(h) + t.subrange(h, b) =~= t.take(b));
    } else {
        assert(front =~= seq![front[0]]);
        lemma_text_of_one(front[0]);
    }
    assert(line_text(front) == t.take(b));
    if b < t.len() {
        assert(all =~= front + seq![all.last()]);
        lemma_text_of_two(front, seq![all.last()]);
        lemma_text_of_one(all.last());
        assert(t.take(b) + t.skip(b) =~= t);
    } else {
        assert(t.take(b) =~= t);
    }
}

// ---------------------------------------------------------------------------
// Where a row stands
// ---------------------------------------------------------------------------

/// The line at which section `sec` begins.
pub open spec fn top_of(d: DocView, sec: int, e: Option<EditView>, h: HintsView, width: int) -> int {
    body_lines(d, sec, e, h, width).len() as int
}

proof fn lemma_block(
    d: DocView,
    n: int,
    sec: int,
    e: Option<EditView>,
    h: HintsView,
    width: int,
    j: int,
)
    requires
        0 <= sec < n,
        0 <= j < block_lines(d, sec, e, h, width).len(),
    ensures
        top_of(d, sec, e, h, width) + j < body_lines(d, n, e, h, width).len(),
        body_lines(d, n, e, h, width)[top_of(d, sec, e, h, width) + j] == block_lines(
            d,
            sec,
            e,
            h,
            width,
        )[j],
    decreases n,
{
    if sec < n - 1 {
        lemma_block(d, n - 1, sec, e, h, width, j);
    }
}

proof fn lemma_rows(
    section: SectionView,
    n: int,
    k: int,
    sec: int,
    e: Option<EditView>,
    h: HintsView,
    width: int,
    j: int,
)
    requires
        0 <= k < n,
        0 <= j < item_lines(section.name, section.items[k], k, sec, e, h, width).len(),
    ensures
        rows_lines(section, k, sec, e, h, width).len() + j < rows_lines(
            section,
            n,
            sec,
            e,
            h,
            width,
        ).len(),
        rows_lines(section, n, sec, e, h, width)[rows_lines(section, k, sec, e, h, width).len() + j]
            == item_lines(section.name, section.items[k], k, sec, e, h, width)[j],
    decreases n,
{
    if k < n - 1 {
        lemma_rows(section, n - 1, k, sec, e, h, width, j);
    }
}

proof fn lemma_plain_rows(
    section: SectionView,
    n: int,
    sec: int,
    e: Option<EditView>,
    h: HintsView,
    width: int,
)
    requires
        section.name != "Current surfaces"@,
        0 <= n,
    ensures
        rows_lines(section, n, sec, e, h, width).len() == n,
    decreases n,
{
    if n > 0 {
        lemma_plain_rows(section, n - 1, sec, e, h, width);
    }
}

/// A section whose rows take one line each.
pub open spec fn is_plain(d: DocView, sec: int) -> bool {
    &&& 0 <= sec < d.sections.len()
    &&& d.sections[sec].name != "Mission"@
    &&& d.sections[sec].name != "Current surfaces"@
}

/// The editor writes row `k` of section `sec`.
pub open spec fn writes(e: Option<EditView>, sec: int, k: int) -> bool {
    e is Some && e.unwrap().section == sec && e.unwrap().item == k && e.unwrap().mode is Insert
}

/// The cursor is on row `k` of section `sec`.
pub open spec fn is_on(e: Option<EditView>, sec: int, k: int) -> bool {
    e is Some && e.unwrap().section == sec && e.unwrap().item == k
}

/// What leads a row: its box, checked or not, or a dash alone.
pub open spec fn box_of(item: ItemView) -> Seq<char> {
    if !item.is_checkbox {
        "- "@
    } else if item.checked == Some(true) {
        "- [x] "@
    } else {
        "- [ ] "@
    }
}

/// A section of tasks is its title, its rows in order, one line each, and a blank line;
/// then the next section begins.
pub proof fn a_section_takes_a_line_for_each_row(
    d: DocView,
    sec: int,
    e: Option<EditView>,
    h: HintsView,
    width: int,
)
    requires
        is_plain(d, sec),
    ensures
        ({
            let body = body_lines(d, d.sections.len() as int, e, h, width);
            let top = top_of(d, sec, e, h, width);
            let n = d.sections[sec].items.len();
            let shown = if n == 0 {
                1
            } else {
                n as int
            };
            &&& top_of(d, 0, e, h, width) == 0
            &&& top_of(d, sec + 1, e, h, width) == top + shown + 2
            &&& body.len() >= top + shown + 2
            &&& d.sections[sec].name != "Beads"@ || h.task_title is None ==> line_text(body[top])
                == "## "@ + d.sections[sec].name
            &&& d.sections[sec].name == "Beads"@ && h.task_title is Some ==> line_text(body[top])
                == "## "@ + h.task_title.unwrap()
            &&& line_text(body[top + shown + 1]) == ""@
            &&& n == 0 ==> line_text(body[top + 1]) == "  (empty)"@
            &&& sec + 1 == d.sections.len() ==> body.len() == top + shown + 2
        }),
{
    let n = d.sections.len() as int;
    let section = d.sections[sec];
    let m = section.items.len() as int;
    let body = body_lines(d, n, e, h, width);
    let top = top_of(d, sec, e, h, width);
    let block = block_lines(d, sec, e, h, width);
    let shown = if m == 0 {
        1
    } else {
        m
    };
    lemma_plain_rows(section, m, sec, e, h, width);
    assert(block.len() == shown + 2);
    lemma_block(d, n, sec, e, h, width, 0);
    lemma_block(d, n, sec, e, h, width, 1);
    lemma_block(d, n, sec, e, h, width, shown + 1);
    lemma_text_of_one(block[0][0]);
    lemma_text_of_one(block[1][0]);
    lemma_text_of_one(block[shown + 1][0]);
    assert(block[0] =~= seq![block[0][0]]);
    assert(block[shown + 1] =~= seq![block[shown + 1][0]]);
    if m == 0 {
        assert(block[1] =~= seq![block[1][0]]);
    }
    assert(top_of(d, sec + 1, e, h, width) == top + block.len());
}

/// The line of a row of tasks begins with the row's own box, `- [x] ` exactly when it is
/// checked, and shows its text behind it: what is shown is what is written into the
/// document. Done rows are darker, and the row under the cursor is marked.
pub proof fn a_row_is_shown_with_its_box(
    d: DocView,
    sec: int,
    k: int,
    e: Option<EditView>,
    h: HintsView,
    width: int,
)
    requires
        is_plain(d, sec),
        0 <= k < d.sections[sec].items.len(),
        !writes(e, sec, k),
    ensures
        ({
            let body = body_lines(d, d.sections.len() as int, e, h, width);
            let item = d.sections[sec].items[k];
            let p = top_of(d, sec, e, h, width) + 1 + k;
            &&& 0 <= p < body.len()
            &&& item.is_checkbox && item.checked == Some(true) ==> line_text(body[p]) == "- [x] "@
                + item.text
            &&& item.is_checkbox && item.checked != Some(true) ==> line_text(body[p]) == "- [ ] "@
                + item.text
            &&& !item.is_checkbox ==> line_text(body[p]) == "- "@ + item.text
            &&& line_text(body[p]) == display(item, item.text)
            &&& is_on(e, sec, k) ==> body[p].len() == 1 && body[p][0].style.fg == Some(
                Color::Black,
            ) && body[p][0].style.bg == Some(Color::Cyan)
            &&& !is_on(e, sec, k) && item.is_checkbox && item.checked == Some(true)
                ==> body[p][0].style.fg == Some(Color::DarkGray) && body[p][0].style.bg is None
            &&& !is_on(e, sec, k) && !(item.is_checkbox && item.checked == Some(true))
                ==> body[p][0].style.fg == Some(Color::Gray) && body[p][0].style.bg is None
        }),
{
    let n = d.sections.len() as int;
    let section = d.sections[sec];
    let m = section.items.len() as int;
    let item = section.items[k];
    let one = item_lines(section.name, item, k, sec, e, h, width);
    let block = block_lines(d, sec, e, h, width);
    lemma_plain_rows(section, m, sec, e, h, width);
    lemma_plain_rows(section, k, sec, e, h, width);
    lemma_rows(section, m, k, sec, e, h, width, 0);
    assert(block[1 + k] == one[0]);
    lemma_block(d, n, sec, e, h, width, 1 + k);
    let base = crate::style::fg(crate::trajectory_view::row_color(item));
    if !is_on(e, sec, k) && section.name == "Beads"@ {
        let x = sp(box_of(item), base);
        lemma_text_of_two(seq![x], goal_spans(item.text, base));
        lemma_text_of_one(x);
        lemma_goal_text(item.text, base);
    } else {
        lemma_text_of_one(one[0][0]);
        assert(one[0] =~= seq![one[0][0]]);
    }
}

/// The row that is being written shows the text of the editor with a block where the next
/// character goes.
pub proof fn a_row_that_is_written_shows_the_editors_text(
    d: DocView,
    sec: int,
    k: int,
    e: EditView,
    h: HintsView,
    width: int,
)
    requires
        is_plain(d, sec),
        0 <= k < d.sections[sec].items.len(),
        writes(Some(e), sec, k),
        0 <= e.col <= e.buffer.len(),
    ensures
        ({
            let body = body_lines(d, d.sections.len() as int, Some(e), h, width);
            let item = d.sections[sec].items[k];
            let p = top_of(d, sec, Some(e), h, width) + 1 + k;
            &&& 0 <= p < body.len()
            &&& body[p].len() == 3
            &&& item.is_checkbox && item.checked == Some(true) ==> body[p][0].text == "- [x] "@
                + e.buffer.take(e.col)
            &&& item.is_checkbox && item.checked != Some(true) ==> body[p][0].text == "- [ ] "@
                + e.buffer.take(e.col)
            &&& !item.is_checkbox ==> body[p][0].text == "- "@ + e.buffer.take(e.col)
            &&& e.col < e.buffer.len() ==> body[p][1].text == seq![e.buffer[e.col]]
                && body[p][2].text == e.buffer.skip(e.col + 1)
            &&& e.col == e.buffer.len() ==> body[p][1].text == " "@ && body[p][2].text.len() == 0
            &&& body[p][1].style.fg == Some(Color::Black)
            &&& body[p][1].style.bg == Some(Color::Yellow)
            &&& body[p][0].style.bg is None && body[p][2].style.bg is None
        }),
{
    let n = d.sections.len() as int;
    let section = d.sections[sec];
    let m = section.items.len() as int;
    let one = item_lines(section.name, section.items[k], k, sec, Some(e), h, width);
    let block = block_lines(d, sec, Some(e), h, width);
    lemma_plain_rows(section, m, sec, Some(e), h, width);
    lemma_plain_rows(section, k, sec, Some(e), h, width);
    lemma_rows(section, m, k, sec, Some(e), h, width, 0);
    assert(block[1 + k] == one[0]);
    lemma_block(d, n, sec, Some(e), h, width, 1 + k);
    if e.col + 1 == e.buffer.len() {
        assert(e.buffer.skip(e.col + 1) =~= Seq::<char>::empty());
    }
}

/// Where a task names a surface behind an arrow, that part is set off in dark gray.
pub proof fn a_surface_badge_is_set_off(t: Seq<char>, b: int, base: Style)
    requires
        find(t, "   → "@) == Some(b),
    ensures
        goal_spans(t, base).len() == 2,
        goal_spans(t, base)[0].text == t.take(b),
        goal_spans(t, base)[0].style == base,
        goal_spans(t, base)[1].text == t.skip(b),
        goal_spans(t, base)[1].style.fg == Some(Color::DarkGray),
        line_text(goal_spans(t, base)) == t,
{
    reveal_strlit("   → ");
    crate::search::lemma_find_from(t, "   → "@, 0);
    lemma_goal_text(t, base);
}

// ---------------------------------------------------------------------------
// Scrolling
// ---------------------------------------------------------------------------

proof fn lemma_no_cursor_below(d: DocView, n: int, m: int, e: EditView, h: HintsView, width: int)
    requires
        0 <= m <= n,
        e.section < m,
    ensures
        body_cursor(d, n, Some(e), h, width) == body_cursor(d, m, Some(e), h, width),
    decreases n,
{
    if m < n {
        lemma_no_cursor_below(d, n - 1, m, e, h, width);
    }
}

/// In navigation mode the row under the cursor is in view, and nothing scrolls while it
/// is; outside navigation mode the offset stands.
pub proof fn scrolling_follows_the_cursors_row(
    d: DocView,
    e: EditView,
    h: HintsView,
    width: int,
    scroll: u16,
    height: u16,
)
    requires
        is_plain(d, e.section),
        0 <= e.item < d.sections[e.section].items.len(),
        top_of(d, e.section, Some(e), h, width) + 1 + e.item <= u16::MAX,
        height > 0,
    ensures
        ({
            let at = line_number(body_cursor(d, d.sections.len() as int, Some(e), h, width));
            let row = top_of(d, e.section, Some(e), h, width) + 1 + e.item;
            let s = followed_scroll(at, true, scroll, height);
            &&& s <= row < s + height
            &&& scroll <= row < scroll + height ==> s == scroll
            &&& row < scroll ==> s == row
            &&& row >= scroll + height ==> s == row - height + 1
            &&& followed_scroll(at, false, scroll, height) == scroll
        }),
{
    let n = d.sections.len() as int;
    let sec = e.section;
    lemma_plain_rows(d.sections[sec], e.item, sec, Some(e), h, width);
    lemma_no_cursor_below(d, n, sec + 1, e, h, width);
    assert(body_cursor(d, sec + 1, Some(e), h, width) == Some(
        top_of(d, sec, Some(e), h, width) + 1 + e.item,
    ));
}

/// Without a cursor the offset stands.
pub proof fn without_a_cursor_nothing_scrolls(in_nav: bool, scroll: u16, height: u16)
    ensures
        followed_scroll(None, in_nav, scroll, height) == scroll,
{
}

// ---------------------------------------------------------------------------
// Missions
// ---------------------------------------------------------------------------

/// A mission's text is shown whole up to 110 characters, and cut with an ellipsis behind
/// them when it is longer.
pub proof fn a_long_mission_is_cut(text: Seq<char>)
    ensures
        trim(text).len() <= 110 ==> mission_text(text) == trim(text),
        trim(text).len() > 110 ==> mission_text(text) == trim(text).take(110) + seq!['…'],
{
    assert(trim(text).take(110).push('…') =~= trim(text).take(110) + seq!['…']);
}

/// How many lines the active missions take.
pub open spec fn mission_rows(d: DocView, sec: int) -> int {
    if d.sections[sec].items.len() == 0 {
        1
    } else {
        d.sections[sec].items.len() as int
    }
}

/// The mission section shows its title, each active mission behind an open box, and the
/// history's title with the number of its missions.
pub proof fn active_missions_are_shown_open(
    d: DocView,
    sec: int,
    e: Option<EditView>,
    h: HintsView,
    width: int,
    k: int,
)
    requires
        0 <= sec < d.sections.len(),
        d.sections[sec].name == "Mission"@,
    ensures
        ({
            let body = body_lines(d, d.sections.len() as int, e, h, width);
            let top = top_of(d, sec, e, h, width);
            let items = d.sections[sec].items;
            let m = mission_rows(d, sec);
            let past = d.mission_history.len();
            &&& body.len() > top + m + 2
            &&& line_text(body[top]) == "## Mission"@
            &&& items.len() == 0 ==> line_text(body[top + 1]) == "  (empty)"@
            &&& 0 <= k < items.len() && !writes(e, sec, k) ==> line_text(body[top + 1 + k])
                == "- [ ] "@ + mission_text(items[k].text)
            &&& 0 <= k < items.len() && is_on(e, sec, k) && e.unwrap().focus == MissionFocus::Active
                && e.unwrap().mode == EditMode::Nav ==> body[top + 1 + k][0].style.bg == Some(
                Color::Cyan,
            )
            &&& 0 <= k < items.len() && !is_on(e, sec, k) ==> body[top + 1 + k][0].style.bg is None
            &&& line_text(body[top + m + 1]) == ""@
            &&& past == 0 ==> line_text(body[top + m + 2]) == "## Mission history (0)"@
            &&& past > 0 && e is Some && e.unwrap().expanded ==> line_text(body[top + m + 2])
                == "## Mission history ("@ + decimal(past) + ") ▾ Enter to fold"@
            &&& past > 0 && !(e is Some && e.unwrap().expanded) ==> line_text(body[top + m + 2])
                == "## Mission history ("@ + decimal(past) + ") ▸ Enter to unfold"@
        }),
{
    let n = d.sections.len() as int;
    let items = d.sections[sec].items;
    let m = mission_rows(d, sec);
    let block = block_lines(d, sec, e, h, width);
    reveal_strlit("## ");
    reveal_strlit("Mission");
    reveal_strlit("## Mission");
    assert("## "@ + "Mission"@ =~= "## Mission"@);
    lemma_block(d, n, sec, e, h, width, 0);
    lemma_block(d, n, sec, e, h, width, 1);
    lemma_block(d, n, sec, e, h, width, m + 1);
    lemma_block(d, n, sec, e, h, width, m + 2);
    assert(block[0] =~= seq![block[0][0]]);
    lemma_text_of_one(block[0][0]);
    if items.len() == 0 {
        assert(block[1] =~= seq![block[1][0]]);
        lemma_text_of_one(block[1][0]);
    }
    assert(block[m + 1] =~= seq![block[m + 1][0]]);
    lemma_text_of_one(block[m + 1][0]);
    assert(block[m + 2] =~= seq![block[m + 2][0]]);
    lemma_text_of_one(block[m + 2][0]);
    if 0 <= k < items.len() {
        lemma_block(d, n, sec, e, h, width, 1 + k);
        assert(block[1 + k] == crate::trajectory_view::active_line(items[k], k, sec, e));
        if !writes(e, sec, k) {
            assert(block[1 + k] =~= seq![block[1 + k][0]]);
            lemma_text_of_one(block[1 + k][0]);
        }
    }
}

/// An unfolded history shows each of its missions behind a checked box, in order; a
/// folded one shows none.
pub proof fn finished_missions_are_shown_checked(
    d: DocView,
    sec: int,
    e: Option<EditView>,
    h: HintsView,
    width: int,
    k: int,
)
    requires
        0 <= sec < d.sections.len(),
        d.sections[sec].name == "Mission"@,
        0 <= k < d.mission_history.len() <= usize::MAX,
    ensures
        ({
            let body = body_lines(d, d.sections.len() as int, e, h, width);
            let top = top_of(d, sec, e, h, width);
            let m = mission_rows(d, sec);
            &&& e is Some && e.unwrap().expanded ==> {
                let p = top + m + 3 + k;
                &&& p < body.len()
                &&& line_text(body[p]) == "- [x] "@ + mission_text(d.mission_history[k].text)
                &&& e.unwrap().section == sec && e.unwrap().mode == EditMode::Nav
                    && e.unwrap().focus == MissionFocus::HistoryItem(k as usize)
                    ==> body[p][0].style.bg == Some(Color::Cyan)
                &&& e.unwrap().focus != MissionFocus::HistoryItem(k as usize)
                    ==> body[p][0].style.bg is None
                &&& top_of(d, sec + 1, e, h, width) == top + m + 4 + d.mission_history.len()
            }
            &&& !(e is Some && e.unwrap().expanded) ==> top_of(d, sec + 1, e, h, width) == top + m
                + 4
        }),
{
    let n = d.sections.len() as int;
    let m = mission_rows(d, sec);
    let block = block_lines(d, sec, e, h, width);
    assert(top_of(d, sec + 1, e, h, width) == top_of(d, sec, e, h, width) + block.len());
    if e is Some && e.unwrap().expanded {
        lemma_block(d, n, sec, e, h, width, m + 3 + k);
        let l = block[m + 3 + k];
        assert(l == crate::trajectory_view::history_line(d.mission_history[k], k, sec, e));
        assert(l =~= seq![l[0]]);
        lemma_text_of_one(l[0]);
    }
}

// ---------------------------------------------------------------------------
// Surfaces
// ---------------------------------------------------------------------------

/// A surface's row holds its title, its goal behind `overall:` and its latest request
/// behind `ask:`, and each is read back.
pub proof fn a_surface_row_is_taken_apart(main: Seq<char>, goal: Seq<char>, ask: Seq<char>)
    requires
        is_tight(main),
        is_tight(goal),
        is_tight(ask),
        find(main + "   overall: "@ + goal + "   ask: "@ + ask, "   overall:"@) == Some(
            main.len() as int,
        ),
        find(main + "   overall: "@ + goal + "   ask: "@ + ask, "   ask:"@) == Some(
            (main.len() + 12 + goal.len()) as int,
        ),
    ensures
        ({
            let p = intent_of(main + "   overall: "@ + goal + "   ask: "@ + ask);
            p.main == main && p.overall == Some(goal) && p.ask == Some(ask)
        }),
{
    reveal_strlit("   overall: ");
    reveal_strlit("   ask: ");
    let t = main + "   overall: "@ + goal + "   ask: "@ + ask;
    let m = main.len() as int;
    let a = m + 12 + goal.len();
    let none = Seq::<char>::empty();
    let blank = seq![' '];
    assert(t.take(m) =~= main);
    crate::view_laws::lemma_trim_end_tight(main);
    assert(t.subrange(m + 11, a) =~= blank + goal);
    trimming_takes_the_outer_blanks(blank, goal, none);
    assert(blank + goal + none =~= blank + goal);
    assert(t.skip(a + 7) =~= blank + ask);
    trimming_takes_the_outer_blanks(blank, ask, none);
    assert(blank + ask + none =~= blank + ask);
}

pub(crate) proof fn lemma_trim_end_tight(s: Seq<char>)
    requires
        is_tight(s),
    ensures
        crate::text::trim_end(s) == s,
{
    if s.len() > 0 {
        assert(!crate::text::is_space(s.last()));
    }
}

/// Without markers the whole row is the title.
pub proof fn a_row_without_markers_is_a_title(t: Seq<char>)
    requires
        is_tight(t),
        find(t, "   overall:"@) is None,
        find(t, "   ask:"@) is None,
    ensures
        intent_of(t).main == t,
        intent_of(t).overall is None,
        intent_of(t).ask is None,
{
    assert(t.take(t.len() as int) =~= t);
    lemma_trim_end_tight(t);
}

proof fn lemma_field_lines(name: Seq<char>, value: Seq<char>, base: Style, width: int, j: int)
    requires
        0 <= j < field_lines(name, value, base, width).len(),
        name.len() == 13,
    ensures
        field_lines(name, value, base, width).len() == wrapped(
            value,
            if width - 13 < 8 {
                8
            } else {
                width - 13
            },
            4,
        ).len(),
        line_text(field_lines(name, value, base, width)[j]) == (if j == 0 {
            name
        } else {
            Seq::new(13, |i: int| ' ')
        }) + wrapped(
            value,
            if width - 13 < 8 {
                8
            } else {
                width - 13
            },
            4,
        )[j],
{
    let l = field_lines(name, value, base, width)[j];
    assert(l =~= seq![l[0]] + seq![l[1]]);
    lemma_text_of_two(seq![l[0]], seq![l[1]]);
    lemma_text_of_one(l[0]);
    lemma_text_of_one(l[1]);
    assert(crate::trajectory_view::spaces(13) =~= Seq::new(13, |i: int| ' '));
}

proof fn lemma_row_line(
    d: DocView,
    sec: int,
    k: int,
    e: Option<EditView>,
    h: HintsView,
    width: int,
    j: int,
)
    requires
        0 <= sec < d.sections.len(),
        d.sections[sec].name == "Current surfaces"@,
        0 <= k < d.sections[sec].items.len(),
        0 <= j < item_lines(
            d.sections[sec].name,
            d.sections[sec].items[k],
            k,
            sec,
            e,
            h,
            width,
        ).len(),
    ensures
        ({
            let p = top_of(d, sec, e, h, width) + 1 + rows_lines(
                d.sections[sec],
                k,
                sec,
                e,
                h,
                width,
            ).len() + j;
            let body = body_lines(d, d.sections.len() as int, e, h, width);
            &&& 0 <= p < body.len()
            &&& body[p] == item_lines(
                d.sections[sec].name,
                d.sections[sec].items[k],
                k,
                sec,
                e,
                h,
                width,
            )[j]
        }),
{
    let section = d.sections[sec];
    let m = section.items.len() as int;
    reveal_strlit("Current surfaces");
    reveal_strlit("Mission");
    assert("Current surfaces"@.len() != "Mission"@.len());
    let before = rows_lines(section, k, sec, e, h, width).len() as int;
    lemma_rows(section, m, k, sec, e, h, width, j);
    lemma_block(d, d.sections.len() as int, sec, e, h, width, 1 + before + j);
}

proof fn lemma_surface_lines(
    item: ItemView,
    k: int,
    sec: int,
    e: Option<EditView>,
    h: HintsView,
    width: int,
    goal: Seq<char>,
    ask: Seq<char>,
    j: int,
)
    requires
        !writes(e, sec, k),
        intent_of(item.text).overall == Some(goal),
        intent_of(item.text).ask == Some(ask),
        goal.len() > 0,
        ask.len() > 0,
    ensures
        ({
            let one = item_lines("Current surfaces"@, item, k, sec, e, h, width);
            let room = if width - 13 < 8 {
                8
            } else {
                width - 13
            };
            let goals = wrapped(goal, room, 4);
            let asks = wrapped(ask, room, 4);
            &&& one.len() == 1 + goals.len() + asks.len()
            &&& line_text(one[0]) == box_of(item) + intent_of(item.text).main
            &&& is_on(e, sec, k) ==> one[0][0].style.bg == Some(Color::Cyan)
            &&& !is_on(e, sec, k) ==> one[0][0].style.bg is None
            &&& 0 <= j < goals.len() ==> line_text(one[1 + j]) == (if j == 0 {
                "    overall: "@
            } else {
                Seq::new(13, |i: int| ' ')
            }) + goals[j]
            &&& 0 <= j < asks.len() ==> line_text(one[1 + goals.len() + j]) == (if j == 0 {
                "    latest:  "@
            } else {
                Seq::new(13, |i: int| ' ')
            }) + asks[j]
        }),
{
    let one = item_lines("Current surfaces"@, item, k, sec, e, h, width);
    let base = crate::style::fg(crate::trajectory_view::row_color(item));
    let main = intent_of(item.text).main;
    reveal_strlit("    overall: ");
    reveal_strlit("    latest:  ");
    let g = field_lines("    overall: "@, goal, base, width);
    let a = field_lines("    latest:  "@, ask, base, width);
    assert(one =~= seq![one[0]] + g + a);
    if is_on(e, sec, k) {
        assert(one[0] =~= seq![one[0][0]]);
        lemma_text_of_one(one[0][0]);
    } else {
        let dim = crate::trajectory_view::is_dim(item, h);
        let x = sp(box_of(item), base);
        assert(one[0] =~= seq![x] + row_spans(main, dim, base));
        lemma_text_of_two(seq![x], row_spans(main, dim, base));
        lemma_text_of_one(x);
        lemma_row_text(main, dim, base);
    }
    if 0 <= j < g.len() {
        lemma_field_lines("    overall: "@, goal, base, width, j);
    }
    if 0 <= j < a.len() {
        lemma_field_lines("    latest:  "@, ask, base, width, j);
    }
}

/// A surface takes a line for its title; below it stand its goal and then its latest
/// request, each wrapped, labelled on the first line and aligned on the others.
pub proof fn a_surface_shows_its_goal_and_latest_request(
    d: DocView,
    sec: int,
    k: int,
    e: Option<EditView>,
    h: HintsView,
    width: int,
    goal: Seq<char>,
    ask: Seq<char>,
    j: int,
) -> (p: int)
    requires
        0 <= sec < d.sections.len(),
        d.sections[sec].name == "Current surfaces"@,
        0 <= k < d.sections[sec].items.len(),
        !writes(e, sec, k),
        intent_of(d.sections[sec].items[k].text).overall == Some(goal),
        intent_of(d.sections[sec].items[k].text).ask == Some(ask),
        goal.len() > 0,
        ask.len() > 0,
    ensures
        ({
            let body = body_lines(d, d.sections.len() as int, e, h, width);
            let item = d.sections[sec].items[k];
            let room = if width - 13 < 8 {
                8
            } else {
                width - 13
            };
            let goals = wrapped(goal, room, 4);
            let asks = wrapped(ask, room, 4);
            &&& 0 <= p
            &&& p + goals.len() + asks.len() < body.len()
            &&& line_text(body[p]) == box_of(item) + intent_of(item.text).main
            &&& is_on(e, sec, k) ==> body[p][0].style.bg == Some(Color::Cyan)
            &&& !is_on(e, sec, k) ==> body[p][0].style.bg is None
            &&& 0 <= j < goals.len() ==> line_text(body[p + 1 + j]) == (if j == 0 {
                "    overall: "@
            } else {
                Seq::new(13, |i: int| ' ')
            }) + goals[j]
            &&& 0 <= j < asks.len() ==> line_text(body[p + 1 + goals.len() + j]) == (if j == 0 {
                "    latest:  "@
            } else {
                Seq::new(13, |i: int| ' ')
            }) + asks[j]
        }),
{
    let section = d.sections[sec];
    let item = section.items[k];
    let one = item_lines(section.name, item, k, sec, e, h, width);
    let before = rows_lines(section, k, sec, e, h, width).len() as int;
    let room = if width - 13 < 8 {
        8
    } else {
        width - 13
    };
    let goals = wrapped(goal, room, 4).len() as int;
    let asks = wrapped(ask, room, 4).len() as int;
    lemma_surface_lines(item, k, sec, e, h, width, goal, ask, j);
    lemma_row_line(d, sec, k, e, h, width, 0);
    lemma_row_line(d, sec, k, e, h, width, goals + asks);
    if 0 <= j < goals {
        lemma_row_line(d, sec, k, e, h, width, 1 + j);
    }
    if 0 <= j < asks {
        lemma_row_line(d, sec, k, e, h, width, 1 + goals + j);
    }
    top_of(d, sec, e, h, width) + 1 + before
}

/// A surface without goal or request takes one line.
pub proof fn a_surface_with_nothing_to_tell_takes_one_line(
    item: ItemView,
    k: int,
    sec: int,
    e: Option<EditView>,
    h: HintsView,
    width: int,
)
    requires
        intent_of(item.text).overall matches Some(g) ==> g.len() == 0,
        intent_of(item.text).ask matches Some(a) ==> a.len() == 0,
    ensures
        item_lines("Current surfaces"@, item, k, sec, e, h, width).len() == 1,
{
}

/// The sign of an agent that has just exited is dimmed, and no other.
pub proof fn an_exited_agent_is_dimmed(t: Seq<char>, dim: bool, base: Style)
    requires
        t.len() > 0,
        kind_of_glyph(t[0]) is Some,
        !base.dim,
    ensures
        row_spans(t, dim, base)[0].style.dim == dim,
        kind_of_glyph(t[0]) == Some(SurfaceKind::Shell) ==> row_spans(t, dim, base)[0].style.fg
            == Some(Color::Gray),
        kind_of_glyph(t[0]) == Some(SurfaceKind::OtherAgent) ==> row_spans(
            t,
            dim,
            base,
        )[0].style.fg == Some(Color::Magenta),
        line_text(row_spans(t, dim, base)) == t,
{
    lemma_row_text(t, dim, base);
}

// ---------------------------------------------------------------------------
// The context strip
// ---------------------------------------------------------------------------

/// The strip shows the context with a bar behind it while the keys go there, and invites
/// to write one while there is none and they do not.
pub proof fn the_strip_shows_the_context(context: Seq<char>, focused: bool)
    ensures
        ({
            let strip = context_lines(context, focused);
            &&& strip.len() == if context.len() == 0 && !focused {
                3int
            } else {
                2int
            }
            &&& strip[1][0].text == context
            &&& focused ==> line_text(strip[1]) == context + "▋"@
            &&& !focused ==> line_text(strip[1]) == context
            &&& focused ==> line_text(strip[0])
                == "─── input context (Esc to save) ───────────────"@
            &&& !focused ==> line_text(strip[0])
                == "─── input context (Tab to switch, Esc to save) "@
            &&& context.len() == 0 && !focused ==> line_text(strip[2])
                == "  (Tab to add context for this edit)"@
        }),
{
    let strip = context_lines(context, focused);
    assert(strip[0] =~= seq![strip[0][0]]);
    lemma_text_of_one(strip[0][0]);
    assert(strip[1] =~= seq![strip[1][0]] + seq![strip[1][1]]);
    lemma_text_of_two(seq![strip[1][0]], seq![strip[1][1]]);
    lemma_text_of_one(strip[1][0]);
    lemma_text_of_one(strip[1][1]);
    reveal_strlit("");
    assert(context + ""@ =~= context);
    if context.len() == 0 && !focused {
        assert(strip[2] =~= seq![strip[2][0]]);
        lemma_text_of_one(strip[2][0]);
    }
}

/// While rows are chosen, the line that the view follows in the missions is the one that is
/// marked; the cursor on a mission, on the history's header or on a finished mission that
/// shows is followed.
pub proof fn the_marked_mission_is_followed(
    section: SectionView,
    history: Seq<ItemView>,
    sec: int,
    s: EditView,
)
    requires
        s.section == sec,
        s.mode == EditMode::Nav,
        s.item >= 0,
    ensures
        ({
            let shown = mission_lines(section, history, sec, Some(s));
            let c = mission_cursor(section, history, sec, Some(s));
            &&& c is Some ==> 0 <= c.unwrap() < shown.len() && shown[c.unwrap()][0].style.bg
                == cursor_style().bg && shown[c.unwrap()][0].style.fg == cursor_style().fg
            &&& s.focus == MissionFocus::Active && s.item < section.items.len() ==> c is Some
            &&& s.focus == MissionFocus::HistoryHeader ==> c is Some
            &&& s.focus matches MissionFocus::HistoryItem(k) ==> (c is Some <==> s.expanded && k
                < history.len())
        }),
{
    let shown = mission_lines(section, history, sec, Some(s));
    let n = if section.items.len() == 0 {
        1int
    } else {
        section.items.len() as int
    };
    assert(active_lines(section.items, sec, Some(s)).len() == n);
    if s.focus == MissionFocus::Active && 0 <= s.item < section.items.len() {
        assert(shown[1 + s.item] == active_line(section.items[s.item], s.item, sec, Some(s)));
    }
    assert(shown[2 + n] == seq![
        sp(
            history_title(history.len(), s.expanded),
            title_style(nav_at(Some(s), sec, MissionFocus::HistoryHeader), Color::DarkGray),
        ),
    ]);
    if let MissionFocus::HistoryItem(k) = s.focus {
        if s.expanded && k < history.len() {
            assert(shown[3 + n + k] == history_line(history[k as int], k as int, sec, Some(s)));
        }
    }
}

/// The history's header counts the finished missions and says what Enter does.
pub proof fn the_header_says_what_enter_does(
    section: SectionView,
    history: Seq<ItemView>,
    sec: int,
    e: Option<EditView>,
)
    ensures
        ({
            let n = if section.items.len() == 0 {
                1int
            } else {
                section.items.len() as int
            };
            let text = mission_lines(section, history, sec, e)[2 + n][0].text;
            let open = e is Some && e.unwrap().expanded;
            &&& history.len() == 0 ==> text == "## Mission history (0)"@
            &&& history.len() > 0 && open ==> text == "## Mission history ("@ + decimal(
                history.len(),
            ) + ") ▾ Enter to fold"@
            &&& history.len() > 0 && !open ==> text == "## Mission history ("@ + decimal(
                history.len(),
            ) + ") ▸ Enter to unfold"@
            &&& !open ==> mission_lines(section, history, sec, e).len() == 3 + n
            &&& open ==> mission_lines(section, history, sec, e).len() == 3 + n + history.len()
        }),
{
}

/// Titles are marked where the cursor is on them: the missions' title when there are no
/// missions, the history's title when it is the one that is chosen.
pub proof fn a_title_is_marked_under_the_cursor(
    section: SectionView,
    history: Seq<ItemView>,
    sec: int,
    s: EditView,
)
    ensures
        ({
            let shown = mission_lines(section, history, sec, Some(s));
            let n = if section.items.len() == 0 {
                1int
            } else {
                section.items.len() as int
            };
            let here = s.section == sec && s.mode == EditMode::Nav;
            let on_title = here && section.items.len() == 0 && s.item == 0 && s.focus
                == MissionFocus::Active;
            let on_history = here && s.focus == MissionFocus::HistoryHeader;
            &&& on_title ==> shown[0][0].style.bg == cursor_style().bg
            &&& !on_title ==> shown[0][0].style.bg is None && shown[0][0].style.fg == Some(
                Color::White,
            )
            &&& on_history ==> shown[2 + n][0].style.bg == cursor_style().bg
            &&& !on_history ==> shown[2 + n][0].style.bg is None && shown[2 + n][0].style.fg
                == Some(Color::DarkGray)
            &&& cursor_style().bg is Some
        }),
{
}

} // verus!
