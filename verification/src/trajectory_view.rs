//! The lines of the trajectory pane.
use crate::numeral::{decimal, decimal_string};
use crate::search::{find, find_in};
use crate::style::{
    blank, bold_fg, cursor_style, extend_line, fg, fg_bg, label, line1, line2, line3, line_views,
    no_lines, plain, push_line, push_lines, recolored, sp, span, span_views, Color, Line, Span,
    SpanView, Style,
};
use crate::surface::{color_of_kind, glyph_kind, kind_color, kind_of_glyph};
use crate::text::{
    chars_of, concat2, concat3, opt_view, same, slice_chars, string_from, string_of, trim,
    trim_chars, trim_end, trim_end_chars, trim_str, views,
};
use crate::trajectory::{
    item_views, DocView, Item, ItemView, Section, SectionView, TrajectoryDoc,
    SECTION_CURRENT_SURFACES, SECTION_GOALS, SECTION_MISSION,
};
use crate::trajectory_edit::{EditMode, EditView, InsertFocus, MissionFocus, TrajectoryEditState};
use crate::wrap::{truncate_chars, truncated_after, wrap_words, wrapped, wrapped_text_fits};
use vstd::prelude::*;

verus! {

/// The longest mission text that is shown without a cut.
pub const ACTIVE_MISSION_MAX_CHARS: usize = 110;

/// Max wrapped lines that one `overall` or `latest` field may occupy.
pub const MAX_FIELD_LINES: usize = 4;

/// What the pane shows beyond the document itself.
#[derive(Debug, Clone)]
pub struct RenderHints {
    /// Surfaces whose sign is dimmed: the agent in them has just exited.
    pub dim_surface_refs: Vec<String>,
    /// Another title for the section of goals.
    pub task_section_title: Option<String>,
}

impl Default for RenderHints {
    fn default() -> (r: Self)
        ensures
            r@ == (HintsView { dim: Seq::empty(), task_title: None }),
    {
        let r = RenderHints { dim_surface_refs: Vec::new(), task_section_title: None };
        assert(r@.dim =~= Seq::<Seq<char>>::empty());
        r
    }
}

/// What the hints say.
#[verifier::ext_equal]
pub struct HintsView {
    pub dim: Seq<Seq<char>>,
    pub task_title: Option<Seq<char>>,
}

impl View for RenderHints {
    type V = HintsView;

    open spec fn view(&self) -> HintsView {
        HintsView { dim: views(self.dim_surface_refs@), task_title: opt_view(self.task_section_title) }
    }
}

// ---------------------------------------------------------------------------
// Surface rows
// ---------------------------------------------------------------------------

/// The lesser of two positions that may be missing.
pub open spec fn earlier(a: Option<int>, b: Option<int>) -> Option<int> {
    match (a, b) {
        (Some(x), Some(y)) => Some(
            if x <= y {
                x
            } else {
                y
            },
        ),
        (Some(x), None) => Some(x),
        (None, y) => y,
    }
}

/// Where the annotations of a surface row begin, or its end.
pub open spec fn annotation_start(t: Seq<char>) -> int {
    match earlier(
        earlier(find(t, "   ← goal:"@), find(t, "   overall:"@)),
        find(t, "   ask:"@),
    ) {
        Some(i) => i,
        None => t.len() as int,
    }
}

/// Where the leading sign and label of a surface row end.
pub open spec fn head_end(t: Seq<char>) -> int {
    let h = match find(t, " · "@) {
        Some(i) => i + 3,
        None => 0,
    };
    if h <= annotation_start(t) {
        h
    } else {
        annotation_start(t)
    }
}

/// The spans of a surface row: sign and label in the kind's color, the body,
/// and the annotation in dark gray. A row without a known sign has no head.
pub open spec fn row_spans(t: Seq<char>, dim: bool, base: Style) -> Seq<SpanView> {
    let h = head_end(t);
    let b = annotation_start(t);
    let kind = if t.len() > 0 {
        kind_of_glyph(t[0])
    } else {
        None
    };
    let front = match kind {
        Some(k) => {
            let colored = recolored(base, color_of_kind(k));
            let head = if dim {
                Style { dim: true, ..colored }
            } else {
                colored
            };
            seq![sp(t.take(h), head), sp(t.subrange(h, b), base)]
        },
        None => seq![sp(t.take(b), base)],
    };
    if b < t.len() {
        front.push(sp(t.skip(b), recolored(base, Color::DarkGray)))
    } else {
        front
    }
}

fn min_pos(a: Option<usize>, b: Option<usize>) -> (r: Option<usize>)
    ensures
        (match r {
            Some(x) => Some(x as int),
            None => None,
        }) == earlier(
            (match a {
                Some(x) => Some(x as int),
                None => None,
            }),
            (match b {
                Some(x) => Some(x as int),
                None => None,
            }),
        ),
{
    match a {
        Some(x) => match b {
            Some(y) => if x <= y {
                Some(x)
            } else {
                Some(y)
            },
            None => Some(x),
        },
        None => b,
    }
}

fn annotation_index(v: &Vec<char>) -> (r: usize)
    ensures
        r == annotation_start(v@),
        r <= v@.len(),
{
    let a = find_in(v, "   ← goal:");
    let b = find_in(v, "   overall:");
    let c = find_in(v, "   ask:");
    match min_pos(min_pos(a, b), c) {
        Some(i) => i,
        None => v.len(),
    }
}

/// Where the annotations of a surface row begin, in characters.
pub fn surface_annotation_start(text: &str) -> (r: usize)
    ensures
        r == annotation_start(text@),
{
    annotation_index(&chars_of(text))
}

/// The styled spans of a surface row.
pub fn surface_row_spans(text: &str, dim: bool, base: Style) -> (r: Vec<Span>)
    ensures
        span_views(r@) == row_spans(text@, dim, base),
{
    let v = chars_of(text);
    let n: usize = v.len();
    let b: usize = annotation_index(&v);
    proof {
        reveal_strlit(" · ");
    }
    let sep: usize = match find_in(&v, " · ") {
        Some(i) => i + 3,
        None => 0,
    };
    let h: usize = if sep <= b {
        sep
    } else {
        b
    };
    let kind = if n > 0 {
        glyph_kind(v[0])
    } else {
        None
    };
    let mut line = Line { spans: Vec::new() };
    assert(line@ =~= Seq::<SpanView>::empty());
    match kind {
        Some(k) => {
            let colored = recolored(base, kind_color(k));
            let head = if dim {
                Style { dim: true, ..colored }
            } else {
                colored
            };
            let s0 = string_of(&v, 0, h);
            let s1 = string_of(&v, h, b);
            assert(s0@ =~= v@.take(h as int));
            crate::style::push_span(&mut line, span(s0, head));
            crate::style::push_span(&mut line, span(s1, base));
            assert(line@ =~= seq![sp(v@.take(h as int), head), sp(v@.subrange(h as int, b as int), base)]);
        },
        None => {
            let s0 = string_of(&v, 0, b);
            assert(s0@ =~= v@.take(b as int));
            crate::style::push_span(&mut line, span(s0, base));
            assert(line@ =~= seq![sp(v@.take(b as int), base)]);
        },
    }
    if b < n {
        let s2 = string_of(&v, b, n);
        assert(s2@ =~= v@.skip(b as int));
        crate::style::push_span(&mut line, span(s2, recolored(base, Color::DarkGray)));
    }
    line.spans
}

/// The parts of a surface row: the title, the overall goal and the latest ask.
pub struct IntentView {
    pub main: Seq<char>,
    pub overall: Option<Seq<char>>,
    pub ask: Option<Seq<char>>,
}

/// Splits a surface row at its `overall:` and `ask:` markers.
pub open spec fn intent_of(t: Seq<char>) -> IntentView {
    let o = find(t, "   overall:"@);
    let a = find(t, "   ask:"@);
    let main_end = match earlier(o, a) {
        Some(i) => i,
        None => t.len() as int,
    };
    IntentView {
        main: trim_end(t.take(main_end)),
        overall: match o {
            Some(i) => {
                let start = i + 11;
                let end = match a {
                    Some(j) => if j > start {
                        j
                    } else {
                        t.len() as int
                    },
                    None => t.len() as int,
                };
                Some(trim(t.subrange(start, end)))
            },
            None => None,
        },
        ask: match a {
            Some(j) => Some(trim(t.skip(j + 7))),
            None => None,
        },
    }
}

/// Splits a surface row at its `overall:` and `ask:` markers.
pub fn split_surface_intent(text: &str) -> (r: (String, Option<String>, Option<String>))
    ensures
        r.0@ == intent_of(text@).main,
        opt_view(r.1) == intent_of(text@).overall,
        opt_view(r.2) == intent_of(text@).ask,
{
    let v = chars_of(text);
    let n: usize = v.len();
    let o = find_in(&v, "   overall:");
    let a = find_in(&v, "   ask:");
    proof {
        reveal_strlit("   overall:");
        reveal_strlit("   ask:");
    }
    let main_end: usize = match min_pos(o, a) {
        Some(i) => i,
        None => n,
    };
    let head = slice_chars(&v, 0, main_end);
    assert(head@ =~= v@.take(main_end as int));
    let main = string_from(&trim_end_chars(&head));
    let overall = match o {
        Some(i) => {
            let start: usize = i + 11;
            let end: usize = match a {
                Some(j) => if j > start {
                    j
                } else {
                    n
                },
                None => n,
            };
            Some(string_from(&trim_chars(&slice_chars(&v, start, end))))
        },
        None => None,
    };
    let ask = match a {
        Some(j) => {
            let rest = slice_chars(&v, j + 7, n);
            assert(rest@ =~= v@.skip(j + 7));
            Some(string_from(&trim_chars(&rest)))
        },
        None => None,
    };
    (main, overall, ask)
}

/// `n` spaces.
pub open spec fn spaces(n: int) -> Seq<char> {
    Seq::new(
        if n > 0 {
            n as nat
        } else {
            0
        },
        |_i: int| ' ',
    )
}

/// Writes `n` spaces.
pub fn spaces_string(n: usize) -> (r: String)
    ensures
        r@ == spaces(n as int),
{
    let mut r = String::new();
    let mut i: usize = 0;
    while i < n
        invariant
            i <= n,
            r@ == spaces(i as int),
        decreases n - i,
    {
        r.push(' ');
        i += 1;
        assert(r@ =~= spaces(i as int));
    }
    r
}

/// The columns left for a field's value.
pub open spec fn field_width(inner_width: int, indent: int) -> int {
    if inner_width - indent < 8 {
        8
    } else {
        inner_width - indent
    }
}

/// One wrapped line of a field: the first is led by the label, the others are
/// indented to align under the value.
pub open spec fn field_line(
    name: Seq<char>,
    segment: Seq<char>,
    first: bool,
    base: Style,
) -> Seq<SpanView> {
    seq![
        if first {
            sp(name, recolored(base, Color::DarkGray))
        } else {
            sp(spaces(name.len() as int), base)
        },
        sp(segment, recolored(base, Color::Gray)),
    ]
}

/// The wrapped lines of an `overall` or `latest` field.
pub open spec fn field_lines(
    name: Seq<char>,
    value: Seq<char>,
    base: Style,
    inner_width: int,
) -> Seq<Seq<SpanView>> {
    let segments = wrapped(
        value,
        field_width(inner_width, name.len() as int),
        MAX_FIELD_LINES as int,
    );
    Seq::new(segments.len(), |k: int| field_line(name, segments[k], k == 0, base))
}

/// A field takes at least one line and at most `MAX_FIELD_LINES`.
pub proof fn a_field_stays_short(
    name: Seq<char>,
    value: Seq<char>,
    base: Style,
    inner_width: int,
)
    ensures
        1 <= field_lines(name, value, base, inner_width).len() <= MAX_FIELD_LINES,
{
    wrapped_text_fits(value, field_width(inner_width, name.len() as int), MAX_FIELD_LINES as int);
}

/// Adds a field as wrapped lines.
pub fn push_field_lines(
    lines: &mut Vec<Line>,
    name: &str,
    value: &str,
    base: Style,
    inner_width: usize,
)
    ensures
        line_views(final(lines)@) == line_views(old(lines)@) + field_lines(
            name@,
            value@,
            base,
            inner_width as int,
        ),
{
    let indent: usize = name.unicode_len();
    let room: usize = inner_width.saturating_sub(indent);
    let avail: usize = if room < 8 {
        8
    } else {
        room
    };
    let segments = wrap_words(value, avail, MAX_FIELD_LINES);
    let ghost start = line_views(lines@);
    let ghost wanted = field_lines(name@, value@, base, inner_width as int);
    let mut i: usize = 0;
    assert(start + wanted.take(0) =~= start);
    while i < segments.len()
        invariant
            i <= segments@.len(),
            indent == name@.len(),
            wanted.len() == segments@.len(),
            forall|k: int|
                0 <= k < wanted.len() ==> #[trigger] wanted[k] == field_line(
                    name@,
                    segments@[k]@,
                    k == 0,
                    base,
                ),
            line_views(lines@) == start + wanted.take(i as int),
        decreases segments@.len() - i,
    {
        let lead = if i == 0 {
            label(name, recolored(base, Color::DarkGray))
        } else {
            span(spaces_string(indent), base)
        };
        let l = line2(lead, span(segments[i].clone(), recolored(base, Color::Gray)));
        assert(l@ =~= wanted[i as int]);
        push_line(lines, l);
        assert((start + wanted.take(i as int)).push(wanted[i as int]) =~= start + wanted.take(i + 1));
        i += 1;
    }
    assert(wanted.take(wanted.len() as int) =~= wanted);
}

/// The lines of a surface: its title, and its goal and latest ask if it has
/// them. Under the cursor only the title line changes.
pub open spec fn surface_lines(
    prefix: Seq<char>,
    text: Seq<char>,
    dim: bool,
    base: Style,
    cursor: bool,
    inner_width: int,
) -> Seq<Seq<SpanView>> {
    let p = intent_of(text);
    let first = if cursor {
        seq![sp(prefix + p.main, cursor_style())]
    } else {
        seq![sp(prefix, base)] + row_spans(p.main, dim, base)
    };
    let goal = match p.overall {
        Some(g) => if g.len() > 0 {
            field_lines("    overall: "@, g, base, inner_width)
        } else {
            Seq::empty()
        },
        None => Seq::empty(),
    };
    let latest = match p.ask {
        Some(a) => if a.len() > 0 {
            field_lines("    latest:  "@, a, base, inner_width)
        } else {
            Seq::empty()
        },
        None => Seq::empty(),
    };
    seq![first] + goal + latest
}

/// The lines of a surface.
pub fn surface_item_lines(
    prefix: &str,
    text: &str,
    dim: bool,
    base: Style,
    cursor: bool,
    inner_width: usize,
) -> (r: Vec<Line>)
    ensures
        line_views(r@) == surface_lines(prefix@, text@, dim, base, cursor, inner_width as int),
{
    let (main, overall, ask) = split_surface_intent(text);
    let mut lines = no_lines();
    let first = if cursor {
        line1(span(concat2(prefix, main.as_str()), cursor_style()))
    } else {
        let mut l = line1(label(prefix, base));
        extend_line(&mut l, surface_row_spans(main.as_str(), dim, base));
        l
    };
    push_line(&mut lines, first);
    assert(line_views(lines@) =~= seq![first@]);
    let ghost none = Seq::<Seq<SpanView>>::empty();
    assert(seq![first@] + none =~= seq![first@]);
    if let Some(g) = &overall {
        if g.as_str().unicode_len() > 0 {
            push_field_lines(&mut lines, "    overall: ", g.as_str(), base, inner_width);
        }
    }
    let ghost mid = line_views(lines@);
    assert(mid + none =~= mid);
    if let Some(a) = &ask {
        if a.as_str().unicode_len() > 0 {
            push_field_lines(&mut lines, "    latest:  ", a.as_str(), base, inner_width);
        }
    }
    lines
}

// ---------------------------------------------------------------------------
// Other rows
// ---------------------------------------------------------------------------

/// The spans of a goal row: a trailing surface badge is dark gray.
pub open spec fn goal_spans(t: Seq<char>, base: Style) -> Seq<SpanView> {
    match find(t, "   → "@) {
        Some(b) => if b < t.len() {
            seq![sp(t.take(b), base), sp(t.skip(b), recolored(base, Color::DarkGray))]
        } else {
            seq![sp(t, base)]
        },
        None => seq![sp(t, base)],
    }
}

/// The styled spans of a goal row.
pub fn goal_row_spans(text: &str, base: Style) -> (r: Vec<Span>)
    ensures
        span_views(r@) == goal_spans(text@, base),
{
    let v = chars_of(text);
    let n: usize = v.len();
    if let Some(b) = find_in(&v, "   → ") {
        if b < n {
            let s0 = string_of(&v, 0, b);
            let s1 = string_of(&v, b, n);
            assert(s0@ =~= v@.take(b as int));
            assert(s1@ =~= v@.skip(b as int));
            return line2(span(s0, base), span(s1, recolored(base, Color::DarkGray))).spans;
        }
    }
    line1(label(text, base)).spans
}

/// The text shown for a mission.
pub open spec fn mission_text(text: Seq<char>) -> Seq<char> {
    truncated_after(trim(text), ACTIVE_MISSION_MAX_CHARS as int)
}

/// The text shown for a mission.
pub fn mission_display_text(text: &str) -> (r: String)
    ensures
        r@ == mission_text(text@),
{
    truncate_chars(trim_str(text).as_str(), ACTIVE_MISSION_MAX_CHARS)
}

/// A row being written: the text before the cursor, the block cursor, and the
/// text after it.
pub open spec fn insert_line(prefix: Seq<char>, text: Seq<char>, col: int) -> Seq<SpanView> {
    let n = text.len();
    let written = bold_fg(Color::White);
    seq![
        sp(
            prefix + text.take(if col <= n {
                col
            } else {
                n as int
            }),
            written,
        ),
        sp(
            if col < n {
                seq![text[col]]
            } else {
                " "@
            },
            fg_bg(Color::Black, Color::Yellow),
        ),
        sp(
            if col + 1 < n {
                text.skip(col + 1)
            } else {
                Seq::empty()
            },
            written,
        ),
    ]
}

/// A row being written, with its block cursor.
pub fn mission_insert_line(prefix: &str, display_text: &str, cursor_col: usize) -> (r: Line)
    ensures
        r@ == insert_line(prefix@, display_text@, cursor_col as int),
{
    let v = chars_of(display_text);
    let n: usize = v.len();
    let cut: usize = if cursor_col <= n {
        cursor_col
    } else {
        n
    };
    let before = string_of(&v, 0, cut);
    assert(before@ =~= v@.take(cut as int));
    let mut under = String::new();
    let mut after = String::new();
    if cursor_col < n {
        under.push(v[cursor_col]);
        assert(under@ =~= seq![v@[cursor_col as int]]);
        after = string_of(&v, cursor_col + 1, n);
        assert(after@ =~= v@.skip(cursor_col + 1));
        assert(cursor_col + 1 == n ==> after@ =~= Seq::<char>::empty());
    } else {
        under = String::from_str(" ");
    }
    line3(
        span(concat2(prefix, before.as_str()), bold_fg(Color::White)),
        span(under, fg_bg(Color::Black, Color::Yellow)),
        span(after, bold_fg(Color::White)),
    )
}

/// A mission row, active or completed.
pub open spec fn mission_row(prefix: Seq<char>, text: Seq<char>, style: Style) -> Seq<SpanView> {
    seq![sp(prefix + mission_text(text), style)]
}

/// A mission row; `writing` is the state of the editor when it is being written.
pub fn mission_item_line(
    prefix: &str,
    text: &str,
    style: Style,
    writing: Option<&TrajectoryEditState>,
) -> (r: Line)
    ensures
        r@ == match writing {
            Some(s) => insert_line(prefix@, s.edit_buffer@, s.cursor_col as int),
            None => mission_row(prefix@, text@, style),
        },
{
    match writing {
        Some(s) => mission_insert_line(prefix, s.edit_buffer.as_str(), s.cursor_col),
        None => line1(span(concat2(prefix, mission_display_text(text).as_str()), style)),
    }
}

/// What an editor that may be absent says.
pub open spec fn edit_of(e: Option<&TrajectoryEditState>) -> Option<EditView> {
    match e {
        Some(s) => Some(s@),
        None => None,
    }
}

// ---------------------------------------------------------------------------
// The mission section
// ---------------------------------------------------------------------------

/// The editor's cursor is in section `i`, in navigation mode, at `focus`.
pub open spec fn nav_at(e: Option<EditView>, i: int, focus: MissionFocus) -> bool {
    match e {
        Some(s) => s.section == i && s.focus == focus && s.mode == EditMode::Nav,
        None => false,
    }
}

/// The style of a section title, under the cursor or not.
pub open spec fn title_style(cursor: bool, c: Color) -> Style {
    if cursor {
        Style { bold: true, ..cursor_style() }
    } else {
        bold_fg(c)
    }
}

fn title(cursor: bool, c: Color) -> (r: Style)
    ensures
        r == title_style(cursor, c),
{
    if cursor {
        Style { bold: true, ..cursor_style() }
    } else {
        bold_fg(c)
    }
}

/// The line of active mission `k`.
pub open spec fn active_line(item: ItemView, k: int, sec: int, e: Option<EditView>) -> Seq<
    SpanView,
> {
    match e {
        Some(s) => if s.section == sec && s.focus == MissionFocus::Active && s.item == k {
            if s.mode == EditMode::Nav {
                mission_row("- [ ] "@, item.text, cursor_style())
            } else {
                insert_line("- [ ] "@, s.buffer, s.col)
            }
        } else {
            mission_row("- [ ] "@, item.text, fg(Color::Gray))
        },
        None => mission_row("- [ ] "@, item.text, fg(Color::Gray)),
    }
}

/// The lines of the active missions.
pub open spec fn active_lines(items: Seq<ItemView>, sec: int, e: Option<EditView>) -> Seq<
    Seq<SpanView>,
> {
    if items.len() == 0 {
        seq![seq![sp("  (empty)"@, fg(Color::DarkGray))]]
    } else {
        Seq::new(items.len(), |k: int| active_line(items[k], k, sec, e))
    }
}

/// The mission history is unfolded.
pub open spec fn unfolded(e: Option<EditView>) -> bool {
    match e {
        Some(s) => s.expanded,
        None => false,
    }
}

/// The title of the mission history.
pub open spec fn history_title(n: nat, expanded: bool) -> Seq<char> {
    if n == 0 {
        "## Mission history (0)"@
    } else if expanded {
        "## Mission history ("@ + decimal(n) + ") ▾ Enter to fold"@
    } else {
        "## Mission history ("@ + decimal(n) + ") ▸ Enter to unfold"@
    }
}

/// The line of completed mission `k`.
pub open spec fn history_line(item: ItemView, k: int, sec: int, e: Option<EditView>) -> Seq<
    SpanView,
> {
    mission_row(
        "- [x] "@,
        item.text,
        if nav_at(e, sec, MissionFocus::HistoryItem(k as usize)) {
            cursor_style()
        } else {
            fg(Color::DarkGray)
        },
    )
}

/// The lines of the mission history below its title.
pub open spec fn history_lines(history: Seq<ItemView>, sec: int, e: Option<EditView>) -> Seq<
    Seq<SpanView>,
> {
    if unfolded(e) {
        Seq::new(history.len(), |k: int| history_line(history[k], k, sec, e))
    } else {
        Seq::empty()
    }
}

/// The editor's cursor is on the title of an empty section `i`.
pub open spec fn on_empty_title(e: Option<EditView>, i: int, empty: bool) -> bool {
    match e {
        Some(s) => s.section == i && s.item == 0 && empty && s.mode == EditMode::Nav,
        None => false,
    }
}

/// The cursor is on the title of the mission section, which has no missions.
pub open spec fn on_mission_title(e: Option<EditView>, i: int, empty: bool) -> bool {
    on_empty_title(e, i, empty) && nav_at(e, i, MissionFocus::Active)
}

/// The lines of the mission section: the active missions, then the history.
pub open spec fn mission_lines(
    section: SectionView,
    history: Seq<ItemView>,
    sec: int,
    e: Option<EditView>,
) -> Seq<Seq<SpanView>> {
    let top = on_mission_title(e, sec, section.items.len() == 0);
    let folded = nav_at(e, sec, MissionFocus::HistoryHeader);
    seq![seq![sp("## "@ + section.name, title_style(top, Color::White))]] + active_lines(
        section.items,
        sec,
        e,
    ) + seq![
        seq![sp(""@, plain())],
        seq![
            sp(
                history_title(history.len(), unfolded(e)),
                title_style(folded, Color::DarkGray),
            ),
        ],
    ] + history_lines(history, sec, e)
}

/// The line of the mission section that the cursor is on.
pub open spec fn mission_cursor(
    section: SectionView,
    history: Seq<ItemView>,
    sec: int,
    e: Option<EditView>,
) -> Option<int> {
    let n = section.items.len();
    let shown = if n == 0 {
        1
    } else {
        n as int
    };
    match e {
        Some(s) => if s.section != sec {
            None
        } else {
            match s.focus {
                MissionFocus::Active => if n == 0 {
                    if s.item == 0 && s.mode == EditMode::Nav {
                        Some(0)
                    } else {
                        None
                    }
                } else if 0 <= s.item < n {
                    Some(1 + s.item)
                } else {
                    None
                },
                MissionFocus::HistoryHeader => if s.mode == EditMode::Nav {
                    Some(2 + shown)
                } else {
                    None
                },
                MissionFocus::HistoryItem(k) => if s.expanded && k < history.len() && s.mode
                    == EditMode::Nav {
                    Some(3 + shown + k)
                } else {
                    None
                },
            }
        },
        None => None,
    }
}

fn history_title_text(n: usize, expanded: bool) -> (r: String)
    ensures
        r@ == history_title(n as nat, expanded),
{
    if n == 0 {
        String::from_str("## Mission history (0)")
    } else if expanded {
        concat3("## Mission history (", decimal_string(n).as_str(), ") ▾ Enter to fold")
    } else {
        concat3("## Mission history (", decimal_string(n).as_str(), ") ▸ Enter to unfold")
    }
}

fn focused_at(e: Option<&TrajectoryEditState>, sec: usize, focus: MissionFocus) -> (r: bool)
    ensures
        r == nav_at(edit_of(e), sec as int, focus),
{
    match e {
        Some(s) => s.cursor_section == sec && s.mission_focus == focus && s.mode == EditMode::Nav,
        None => false,
    }
}

fn active_row(item: &Item, k: usize, sec: usize, e: Option<&TrajectoryEditState>) -> (r: Line)
    ensures
        r@ == active_line(item@, k as int, sec as int, edit_of(e)),
{
    match e {
        Some(s) => {
            if s.cursor_section == sec && s.mission_focus == MissionFocus::Active && s.cursor_item
                == k {
                if s.mode == EditMode::Nav {
                    mission_item_line("- [ ] ", item.text.as_str(), cursor_style(), None)
                } else {
                    mission_item_line("- [ ] ", item.text.as_str(), cursor_style(), Some(s))
                }
            } else {
                mission_item_line("- [ ] ", item.text.as_str(), fg(Color::Gray), None)
            }
        },
        None => mission_item_line("- [ ] ", item.text.as_str(), fg(Color::Gray), None),
    }
}

/// The lines of the mission section and the one that the cursor is on.
pub fn render_mission_section(
    section: &Section,
    history: &Vec<Item>,
    sec_idx: usize,
    edit_state: Option<&TrajectoryEditState>,
) -> (r: (Vec<Line>, Option<usize>))
    ensures
        line_views(r.0@) == mission_lines(
            section@,
            item_views(history@),
            sec_idx as int,
            edit_of(edit_state),
        ),
        (match r.1 {
            Some(k) => Some(k as int),
            None => None,
        }) == mission_cursor(section@, item_views(history@), sec_idx as int, edit_of(edit_state)),
{
    let ghost e = edit_of(edit_state);
    let ghost sec = sec_idx as int;
    let ghost hv = item_views(history@);
    let n: usize = section.items.len();
    let h: usize = history.len();
    let on_title = focused_at(edit_state, sec_idx, MissionFocus::Active) && n == 0 && (
    match edit_state {
        Some(s) => s.cursor_item == 0,
        None => false,
    });
    let mut lines = no_lines();
    push_line(
        &mut lines,
        line1(span(concat2("## ", section.name.as_str()), title(on_title, Color::White))),
    );
    let ghost top = line_views(lines@);
    assert(top =~= seq![seq![sp("## "@ + section.name@, title_style(on_title, Color::White))]]);
    let ghost rows = active_lines(section@.items, sec, e);
    if n == 0 {
        push_line(&mut lines, line1(label("  (empty)", fg(Color::DarkGray))));
        assert(line_views(lines@) =~= top + rows);
    } else {
        let mut k: usize = 0;
        assert(top + rows.take(0) =~= top);
        while k < n
            invariant
                k <= n == section.items@.len(),
                n > 0,
                e == edit_of(edit_state),
                sec == sec_idx,
                rows == active_lines(section@.items, sec, e),
                rows.len() == n,
                line_views(lines@) == top + rows.take(k as int),
            decreases n - k,
        {
            let l = active_row(&section.items[k], k, sec_idx, edit_state);
            assert(section@.items[k as int] == section.items@[k as int]@);
            assert(l@ == rows[k as int]);
            push_line(&mut lines, l);
            assert((top + rows.take(k as int)).push(rows[k as int]) =~= top + rows.take(k + 1));
            k += 1;
        }
        assert(rows.take(n as int) =~= rows);
    }
    push_line(&mut lines, blank());
    let expanded = match edit_state {
        Some(s) => s.mission_history_expanded,
        None => false,
    };
    let on_header = focused_at(edit_state, sec_idx, MissionFocus::HistoryHeader);
    push_line(
        &mut lines,
        line1(span(history_title_text(h, expanded), title(on_header, Color::DarkGray))),
    );
    let ghost mid = line_views(lines@);
    let ghost tail = seq![
        seq![sp(""@, plain())],
        seq![sp(history_title(h as nat, expanded), title_style(on_header, Color::DarkGray))],
    ];
    assert(mid =~= top + rows + tail);
    let ghost past = history_lines(hv, sec, e);
    if expanded {
        let mut k: usize = 0;
        assert(mid + past.take(0) =~= mid);
        while k < h
            invariant
                k <= h == history@.len(),
                hv == item_views(history@),
                e == edit_of(edit_state),
                sec == sec_idx,
                unfolded(e),
                past == history_lines(hv, sec, e),
                past.len() == h,
                line_views(lines@) == mid + past.take(k as int),
            decreases h - k,
        {
            let style = if focused_at(edit_state, sec_idx, MissionFocus::HistoryItem(k)) {
                cursor_style()
            } else {
                fg(Color::DarkGray)
            };
            let l = mission_item_line("- [x] ", history[k].text.as_str(), style, None);
            assert(hv[k as int] == history@[k as int]@);
            assert(l@ == past[k as int]);
            push_line(&mut lines, l);
            assert((mid + past.take(k as int)).push(past[k as int]) =~= mid + past.take(k + 1));
            k += 1;
        }
        assert(past.take(h as int) =~= past);
    } else {
        assert(mid + past =~= mid);
    }
    let total: usize = lines.len();
    assert(total == line_views(lines@).len());
    let shown: usize = if n == 0 {
        1
    } else {
        n
    };
    let cursor: Option<usize> = match edit_state {
        Some(s) => if s.cursor_section != sec_idx {
            None
        } else {
            match s.mission_focus {
                MissionFocus::Active => if n == 0 {
                    if s.cursor_item == 0 && s.mode == EditMode::Nav {
                        Some(0)
                    } else {
                        None
                    }
                } else if s.cursor_item < n {
                    Some(1 + s.cursor_item)
                } else {
                    None
                },
                MissionFocus::HistoryHeader => if s.mode == EditMode::Nav {
                    Some(2 + shown)
                } else {
                    None
                },
                MissionFocus::HistoryItem(k) => if s.mission_history_expanded && k < h && s.mode
                    == EditMode::Nav {
                    Some(3 + shown + k)
                } else {
                    None
                },
            }
        },
        None => None,
    };
    (lines, cursor)
}

// ---------------------------------------------------------------------------
// The other sections
// ---------------------------------------------------------------------------

/// The editor is in insert mode.
pub open spec fn inserting(e: Option<EditView>) -> bool {
    match e {
        Some(s) => s.mode is Insert,
        None => false,
    }
}

/// The editor's cursor is on row `k` of section `sec`.
pub open spec fn cursor_at(e: Option<EditView>, sec: int, k: int) -> bool {
    match e {
        Some(s) => s.section == sec && s.item == k,
        None => false,
    }
}

/// What leads a row.
pub open spec fn row_prefix(item: ItemView) -> Seq<char> {
    if item.is_checkbox {
        if item.checked == Some(true) {
            "- [x] "@
        } else {
            "- [ ] "@
        }
    } else {
        "- "@
    }
}

/// The color of a row's text: done rows are darker.
pub open spec fn row_color(item: ItemView) -> Color {
    if item.is_checkbox && item.checked == Some(true) {
        Color::DarkGray
    } else {
        Color::Gray
    }
}

/// The row's surface is one that the hints dim.
pub open spec fn is_dim(item: ItemView, hints: HintsView) -> bool {
    match item.surface_id {
        Some(id) => hints.dim.contains(id),
        None => false,
    }
}

/// The lines of row `k` of section `sec`.
pub open spec fn item_lines(
    name: Seq<char>,
    item: ItemView,
    k: int,
    sec: int,
    e: Option<EditView>,
    hints: HintsView,
    width: int,
) -> Seq<Seq<SpanView>> {
    let here = cursor_at(e, sec, k);
    let prefix = row_prefix(item);
    let base = fg(row_color(item));
    if here && inserting(e) {
        seq![insert_line(prefix, e.unwrap().buffer, e.unwrap().col)]
    } else if name == SECTION_CURRENT_SURFACES@ {
        surface_lines(prefix, item.text, is_dim(item, hints), base, here, width)
    } else if here {
        seq![seq![sp(prefix + item.text, cursor_style())]]
    } else if name == SECTION_GOALS@ {
        seq![seq![sp(prefix, base)] + goal_spans(item.text, base)]
    } else {
        seq![seq![sp(prefix + item.text, base)]]
    }
}

/// The lines of the first `n` rows of a section.
pub open spec fn rows_lines(
    section: SectionView,
    n: int,
    sec: int,
    e: Option<EditView>,
    hints: HintsView,
    width: int,
) -> Seq<Seq<SpanView>>
    decreases n,
{
    if n <= 0 {
        Seq::empty()
    } else {
        rows_lines(section, n - 1, sec, e, hints, width) + item_lines(
            section.name,
            section.items[n - 1],
            n - 1,
            sec,
            e,
            hints,
            width,
        )
    }
}

/// The title of a section; the hints may rename the section of goals.
pub open spec fn section_title(section: SectionView, hints: HintsView) -> Seq<char> {
    match hints.task_title {
        Some(t) => if section.name == SECTION_GOALS@ {
            t
        } else {
            section.name
        },
        None => section.name,
    }
}

/// The lines of a section other than the missions.
pub open spec fn section_lines(
    section: SectionView,
    sec: int,
    e: Option<EditView>,
    hints: HintsView,
    width: int,
) -> Seq<Seq<SpanView>> {
    let n = section.items.len();
    let head = seq![
        seq![
            sp(
                "## "@ + section_title(section, hints),
                title_style(on_empty_title(e, sec, n == 0), Color::White),
            ),
        ],
    ];
    if n == 0 {
        head + seq![seq![sp("  (empty)"@, fg(Color::DarkGray))]]
    } else {
        head + rows_lines(section, n as int, sec, e, hints, width)
    }
}

/// The line of such a section that the cursor is on: the title of an empty
/// section, or the first line of the cursor's row.
pub open spec fn section_cursor(
    section: SectionView,
    sec: int,
    e: Option<EditView>,
    hints: HintsView,
    width: int,
) -> Option<int> {
    let n = section.items.len();
    if on_empty_title(e, sec, n == 0) {
        Some(0)
    } else {
        match e {
            Some(s) => if s.section == sec && 0 <= s.item < n {
                Some(1 + rows_lines(section, s.item, sec, e, hints, width).len() as int)
            } else {
                None
            },
            None => None,
        }
    }
}

/// The lines of section `sec`, with the blank line after it.
pub open spec fn block_lines(
    d: DocView,
    sec: int,
    e: Option<EditView>,
    hints: HintsView,
    width: int,
) -> Seq<Seq<SpanView>> {
    let section = d.sections[sec];
    (if section.name == SECTION_MISSION@ {
        mission_lines(section, d.mission_history, sec, e)
    } else {
        section_lines(section, sec, e, hints, width)
    }).push(seq![sp(""@, plain())])
}

/// The line of section `sec` that the cursor is on.
pub open spec fn block_cursor(
    d: DocView,
    sec: int,
    e: Option<EditView>,
    hints: HintsView,
    width: int,
) -> Option<int> {
    let section = d.sections[sec];
    if section.name == SECTION_MISSION@ {
        mission_cursor(section, d.mission_history, sec, e)
    } else {
        section_cursor(section, sec, e, hints, width)
    }
}

/// The lines of the first `n` sections.
pub open spec fn body_lines(
    d: DocView,
    n: int,
    e: Option<EditView>,
    hints: HintsView,
    width: int,
) -> Seq<Seq<SpanView>>
    decreases n,
{
    if n <= 0 {
        Seq::empty()
    } else {
        body_lines(d, n - 1, e, hints, width) + block_lines(d, n - 1, e, hints, width)
    }
}

/// The line of the first `n` sections that the cursor is on.
pub open spec fn body_cursor(
    d: DocView,
    n: int,
    e: Option<EditView>,
    hints: HintsView,
    width: int,
) -> Option<int>
    decreases n,
{
    if n <= 0 {
        None
    } else {
        match block_cursor(d, n - 1, e, hints, width) {
            Some(c) => Some(body_lines(d, n - 1, e, hints, width).len() + c),
            None => body_cursor(d, n - 1, e, hints, width),
        }
    }
}

fn prefix_of(item: &Item) -> (r: &'static str)
    ensures
        r@ == row_prefix(item@),
{
    if item.is_checkbox {
        if done(item) {
            "- [x] "
        } else {
            "- [ ] "
        }
    } else {
        "- "
    }
}

fn done(item: &Item) -> (r: bool)
    ensures
        r == (item.checked == Some(true)),
{
    match item.checked {
        Some(b) => b,
        None => false,
    }
}

fn dimmed(item: &Item, hints: &RenderHints) -> (r: bool)
    ensures
        r == is_dim(item@, hints@),
{
    match &item.surface_id {
        Some(id) => {
            let mut i: usize = 0;
            while i < hints.dim_surface_refs.len()
                invariant
                    i <= hints.dim_surface_refs@.len(),
                    item@.surface_id == Some(id@),
                    forall|k: int| 0 <= k < i ==> #[trigger] hints.dim_surface_refs@[k]@ != id@,
                decreases hints.dim_surface_refs@.len() - i,
            {
                if hints.dim_surface_refs[i] == *id {
                    assert(hints@.dim[i as int] == id@);
                    return true;
                }
                i += 1;
            }
            proof {
                if hints@.dim.contains(id@) {
                    let k = choose|k: int| 0 <= k < hints@.dim.len() && hints@.dim[k] == id@;
                    assert(hints.dim_surface_refs@[k]@ == id@);
                }
            }
            false
        },
        None => false,
    }
}

fn render_item(
    name: &str,
    item: &Item,
    k: usize,
    sec: usize,
    e: Option<&TrajectoryEditState>,
    hints: &RenderHints,
    width: usize,
) -> (r: Vec<Line>)
    ensures
        line_views(r@) == item_lines(
            name@,
            item@,
            k as int,
            sec as int,
            edit_of(e),
            hints@,
            width as int,
        ),
{
    let here = match e {
        Some(s) => s.cursor_section == sec && s.cursor_item == k,
        None => false,
    };
    let prefix = prefix_of(item);
    let base = if item.is_checkbox && done(item) {
        fg(Color::DarkGray)
    } else {
        fg(Color::Gray)
    };
    let mut lines = no_lines();
    if here {
        if let Some(s) = e {
            if s.mode != EditMode::Nav {
                push_line(
                    &mut lines,
                    mission_insert_line(prefix, s.edit_buffer.as_str(), s.cursor_col),
                );
                assert(line_views(lines@) =~= seq![insert_line(prefix@, s.edit_buffer@, s.cursor_col as int)]);
                return lines;
            }
        }
    }
    if same(name, SECTION_CURRENT_SURFACES) {
        return surface_item_lines(
            prefix,
            item.text.as_str(),
            dimmed(item, hints),
            base,
            here,
            width,
        );
    }
    if here {
        push_line(
            &mut lines,
            line1(span(concat2(prefix, item.text.as_str()), cursor_style())),
        );
        assert(line_views(lines@) =~= seq![seq![sp(prefix@ + item.text@, cursor_style())]]);
    } else if same(name, SECTION_GOALS) {
        let mut l = line1(label(prefix, base));
        extend_line(&mut l, goal_row_spans(item.text.as_str(), base));
        push_line(&mut lines, l);
        assert(line_views(lines@) =~= seq![seq![sp(prefix@, base)] + goal_spans(item.text@, base)]);
    } else {
        push_line(&mut lines, line1(span(concat2(prefix, item.text.as_str()), base)));
        assert(line_views(lines@) =~= seq![seq![sp(prefix@ + item.text@, base)]]);
    }
    lines
}

/// Whether a section holds the goals.
pub fn is_goals_section(section: &Section) -> (r: bool)
    ensures
        r == (section.name@ == SECTION_GOALS@),
{
    same(section.name.as_str(), SECTION_GOALS)
}

fn render_section(
    section: &Section,
    sec: usize,
    e: Option<&TrajectoryEditState>,
    hints: &RenderHints,
    width: usize,
) -> (r: (Vec<Line>, Option<usize>))
    ensures
        line_views(r.0@) == section_lines(section@, sec as int, edit_of(e), hints@, width as int),
        (match r.1 {
            Some(k) => Some(k as int),
            None => None,
        }) == section_cursor(section@, sec as int, edit_of(e), hints@, width as int),
{
    let n: usize = section.items.len();
    let on_title = match e {
        Some(s) => s.cursor_section == sec && s.cursor_item == 0 && n == 0 && s.mode
            == EditMode::Nav,
        None => false,
    };
    let name = match &hints.task_section_title {
        Some(t) => if is_goals_section(section) {
            t.as_str()
        } else {
            section.name.as_str()
        },
        None => section.name.as_str(),
    };
    let mut lines = no_lines();
    push_line(&mut lines, line1(span(concat2("## ", name), title(on_title, Color::White))));
    let ghost head = line_views(lines@);
    assert(head =~= seq![seq![sp("## "@ + section_title(section@, hints@), title_style(on_title, Color::White))]]);
    if n == 0 {
        push_line(&mut lines, line1(label("  (empty)", fg(Color::DarkGray))));
        assert(line_views(lines@) =~= head + seq![seq![sp("  (empty)"@, fg(Color::DarkGray))]]);
        let cursor: Option<usize> = if on_title {
            Some(0)
        } else {
            None
        };
        return (lines, cursor);
    }
    let mut cursor: Option<usize> = None;
    let mut k: usize = 0;
    let ghost ev = edit_of(e);
    assert(head + Seq::<Seq<SpanView>>::empty() =~= head);
    while k < n
        invariant
            k <= n == section.items@.len(),
            n > 0,
            ev == edit_of(e),
            head.len() == 1,
            line_views(lines@) == head + rows_lines(
                section@,
                k as int,
                sec as int,
                ev,
                hints@,
                width as int,
            ),
            match ev {
                Some(s) => if s.section == sec && 0 <= s.item < k {
                    cursor matches Some(c) && c == 1 + rows_lines(
                        section@,
                        s.item,
                        sec as int,
                        ev,
                        hints@,
                        width as int,
                    ).len()
                } else {
                    cursor is None
                },
                None => cursor is None,
            },
        decreases n - k,
    {
        if let Some(s) = e {
            if s.cursor_section == sec && s.cursor_item == k {
                assert(lines@.len() == line_views(lines@).len());
                cursor = Some(lines.len());
            }
        }
        assert(section@.items[k as int] == section.items@[k as int]@);
        let more = render_item(
            section.name.as_str(),
            &section.items[k],
            k,
            sec,
            e,
            hints,
            width,
        );
        let ghost before = line_views(lines@);
        push_lines(&mut lines, more);
        assert(before + line_views(more@) =~= head + rows_lines(
            section@,
            k + 1,
            sec as int,
            ev,
            hints@,
            width as int,
        ));
        k += 1;
    }
    (lines, cursor)
}

// ---------------------------------------------------------------------------
// The pane
// ---------------------------------------------------------------------------

/// The pane's lines and the line that scrolling starts from.
pub struct DetailBody {
    pub lines: Vec<Line>,
    pub scroll: u16,
}

/// Where scrolling starts: in navigation mode the viewport follows the
/// cursor's line, otherwise the caller's offset stands.
pub open spec fn followed_scroll(
    cursor: Option<u16>,
    in_nav: bool,
    scroll: u16,
    height: u16,
) -> u16 {
    let view = if height < 1 {
        1
    } else {
        height as int
    };
    match cursor {
        Some(c) => if !in_nav {
            scroll
        } else if c < scroll {
            c
        } else if c >= scroll + view {
            (c - (view - 1)) as u16
        } else {
            scroll
        },
        None => scroll,
    }
}

/// Where scrolling starts.
pub fn effective_scroll(cursor: Option<u16>, in_nav: bool, scroll: u16, height: u16) -> (r: u16)
    ensures
        r == followed_scroll(cursor, in_nav, scroll, height),
{
    let view: u16 = if height < 1 {
        1
    } else {
        height
    };
    match cursor {
        Some(c) => {
            if !in_nav {
                scroll
            } else if c < scroll {
                c
            } else if (c as u32) >= (scroll as u32) + (view as u32) {
                c.saturating_sub(view - 1)
            } else {
                scroll
            }
        },
        None => scroll,
    }
}

/// The cursor's line is always in view in navigation mode.
pub proof fn the_cursor_stays_in_view(cursor: u16, scroll: u16, height: u16)
    requires
        height >= 1,
    ensures
        followed_scroll(Some(cursor), true, scroll, height) <= cursor,
        cursor < followed_scroll(Some(cursor), true, scroll, height) + height,
{
}

/// A position among the lines, in the width that scrolling counts in.
pub open spec fn line_number(c: Option<int>) -> Option<u16> {
    match c {
        Some(k) => Some(k as u16),
        None => None,
    }
}

/// The editor is in navigation mode.
pub open spec fn navigating(e: Option<EditView>) -> bool {
    match e {
        Some(s) => s.mode == EditMode::Nav,
        None => false,
    }
}

/// Lays out the document for a pane of the given inner size.
pub fn detail_body(
    doc: &TrajectoryDoc,
    scroll: u16,
    edit_state: Option<&TrajectoryEditState>,
    hints: &RenderHints,
    width: u16,
    height: u16,
) -> (r: DetailBody)
    ensures
        ({
            let e = edit_of(edit_state);
            let n = doc@.sections.len() as int;
            &&& line_views(r.lines@) == body_lines(doc@, n, e, hints@, width as int)
            &&& r.scroll == followed_scroll(
                line_number(body_cursor(doc@, n, e, hints@, width as int)),
                navigating(e),
                scroll,
                height,
            )
        }),
{
    let ghost e = edit_of(edit_state);
    let ghost w = width as int;
    let mut lines = no_lines();
    let mut cursor: Option<usize> = None;
    let n: usize = doc.sections.len();
    let mut i: usize = 0;
    while i < n
        invariant
            i <= n == doc.sections@.len(),
            e == edit_of(edit_state),
            w == width,
            line_views(lines@) == body_lines(doc@, i as int, e, hints@, w),
            (match cursor {
                Some(k) => Some(k as int),
                None => None,
            }) == body_cursor(doc@, i as int, e, hints@, w),
        decreases n - i,
    {
        let section = &doc.sections[i];
        assert(doc@.sections[i as int] == section@);
        let before: usize = lines.len();
        let ghost so_far = line_views(lines@);
        assert(before == so_far.len());
        let (more, at) = if same(section.name.as_str(), SECTION_MISSION) {
            render_mission_section(section, &doc.mission_history, i, edit_state)
        } else {
            render_section(section, i, edit_state, hints, width as usize)
        };
        let ghost block = line_views(more@);
        push_lines(&mut lines, more);
        push_line(&mut lines, blank());
        assert(line_views(lines@) =~= so_far + block_lines(doc@, i as int, e, hints@, w));
        let total: usize = lines.len();
        assert(total == line_views(lines@).len());
        if let Some(c) = at {
            proof {
                lemma_block_cursor_in_block(doc@, i as int, e, hints@, w);
            }
            cursor = Some(before + c);
        }
        i += 1;
    }
    let at: Option<u16> = match cursor {
        Some(k) => Some(
            #[verifier::truncate]
            (k as u16),
        ),
        None => None,
    };
    let in_nav = match edit_state {
        Some(s) => s.mode == EditMode::Nav,
        None => false,
    };
    DetailBody { lines, scroll: effective_scroll(at, in_nav, scroll, height) }
}

proof fn lemma_rows_grow(
    section: SectionView,
    i: int,
    n: int,
    sec: int,
    e: Option<EditView>,
    hints: HintsView,
    width: int,
)
    requires
        0 <= i <= n,
    ensures
        rows_lines(section, i, sec, e, hints, width).len() <= rows_lines(
            section,
            n,
            sec,
            e,
            hints,
            width,
        ).len(),
    decreases n - i,
{
    if i < n {
        lemma_rows_grow(section, i, n - 1, sec, e, hints, width);
    }
}

/// The cursor's line is one of the section's lines.
proof fn lemma_block_cursor_in_block(
    d: DocView,
    sec: int,
    e: Option<EditView>,
    hints: HintsView,
    width: int,
)
    ensures
        block_cursor(d, sec, e, hints, width) matches Some(c) ==> 0 <= c < block_lines(
            d,
            sec,
            e,
            hints,
            width,
        ).len(),
{
    let section = d.sections[sec];
    if section.name != SECTION_MISSION@ {
        if let Some(s) = e {
            if s.section == sec && 0 <= s.item < section.items.len() {
                lemma_rows_grow(
                    section,
                    s.item,
                    section.items.len() as int,
                    sec,
                    e,
                    hints,
                    width,
                );
            }
        }
    }
}

// ---------------------------------------------------------------------------
// The input context strip
// ---------------------------------------------------------------------------

/// The strip below the pane in insert mode: a rule with a hint, the context
/// that the user has written, and an invitation while it is empty.
pub open spec fn context_lines(context: Seq<char>, focused: bool) -> Seq<Seq<SpanView>> {
    let rule = if focused {
        "─── input context (Esc to save) ───────────────"@
    } else {
        "─── input context (Tab to switch, Esc to save) "@
    };
    let cursor = if focused {
        "▋"@
    } else {
        ""@
    };
    let written = seq![
        seq![sp(rule, fg(Color::DarkGray))],
        seq![sp(context, fg(Color::White)), sp(cursor, fg(Color::Yellow))],
    ];
    if context.len() == 0 && !focused {
        written.push(seq![sp("  (Tab to add context for this edit)"@, fg(Color::DarkGray))])
    } else {
        written
    }
}

/// The lines of the input context strip; nothing outside insert mode.
pub fn context_strip(edit_state: &TrajectoryEditState) -> (r: Option<Vec<Line>>)
    ensures
        match edit_state.mode {
            EditMode::Insert { focus } => r matches Some(lines) && line_views(lines@)
                == context_lines(edit_state.input_ctx_buffer@, focus == InsertFocus::InputCtx),
            EditMode::Nav => r is None,
        },
{
    let focused = match edit_state.mode {
        EditMode::Insert { focus } => focus == InsertFocus::InputCtx,
        EditMode::Nav => {
            return None;
        },
    };
    let rule = if focused {
        "─── input context (Esc to save) ───────────────"
    } else {
        "─── input context (Tab to switch, Esc to save) "
    };
    let cursor = if focused {
        "▋"
    } else {
        ""
    };
    let mut lines = no_lines();
    push_line(&mut lines, line1(label(rule, fg(Color::DarkGray))));
    push_line(
        &mut lines,
        line2(
            span(edit_state.input_ctx_buffer.clone(), fg(Color::White)),
            label(cursor, fg(Color::Yellow)),
        ),
    );
    assert(line_views(lines@) =~= seq![
        seq![sp(rule@, fg(Color::DarkGray))],
        seq![
            sp(edit_state.input_ctx_buffer@, fg(Color::White)),
            sp(cursor@, fg(Color::Yellow)),
        ],
    ]);
    if edit_state.input_ctx_buffer.as_str().unicode_len() == 0 && !focused {
        push_line(
            &mut lines,
            line1(label("  (Tab to add context for this edit)", fg(Color::DarkGray))),
        );
    }
    Some(lines)
}

/// What the detail pane shows: its lines, the line that scrolling starts from, and
/// the strip below while an item is written.
pub struct PaneContent {
    pub lines: Vec<Line>,
    pub scroll: u16,
    pub context: Option<Vec<Line>>,
}

/// Lays out the detail pane of a workspace with the given inner size.
pub fn pane_content(
    doc: Option<&TrajectoryDoc>,
    scroll: u16,
    edit_state: Option<&TrajectoryEditState>,
    hints: &RenderHints,
    width: u16,
    height: u16,
) -> (r: PaneContent)
    ensures
        match doc {
            None => {
                &&& line_views(r.lines@) == seq![
                    seq![sp("No trajectory yet for this workspace."@, plain())],
                ]
                &&& r.scroll == 0
                &&& r.context is None
            },
            Some(d) => {
                let e = edit_of(edit_state);
                let n = d@.sections.len() as int;
                &&& line_views(r.lines@) == body_lines(d@, n, e, hints@, width as int)
                &&& r.scroll == followed_scroll(
                    line_number(body_cursor(d@, n, e, hints@, width as int)),
                    navigating(e),
                    scroll,
                    height,
                )
                &&& r.context is Some <==> inserting(e)
                &&& r.context is Some ==> line_views(r.context.unwrap()@) == context_lines(
                    e.unwrap().context,
                    e.unwrap().mode == (EditMode::Insert { focus: InsertFocus::InputCtx }),
                )
            },
        },
{
    match doc {
        None => {
            let mut lines = no_lines();
            push_line(&mut lines, line1(label("No trajectory yet for this workspace.", plain())));
            assert(line_views(lines@) =~= seq![
                seq![sp("No trajectory yet for this workspace."@, plain())],
            ]);
            PaneContent { lines, scroll: 0, context: None }
        },
        Some(d) => {
            let body = detail_body(d, scroll, edit_state, hints, width, height);
            let context = match edit_state {
                Some(e) => context_strip(e),
                None => None,
            };
            PaneContent { lines: body.lines, scroll: body.scroll, context }
        },
    }
}

} // verus!
