//! Styled text: what a pane shows, before a terminal backend draws it.
use vstd::prelude::*;

verus! {

/// The colors that the panes use.
#[derive(Debug, Clone, Copy, PartialEq, Eq, Structural)]
pub enum Color {
    Reset,
    Black,
    Red,
    Green,
    Yellow,
    Magenta,
    Cyan,
    Gray,
    DarkGray,
    White,
    Rgb(u8, u8, u8),
}

/// Colors and text attributes. `None` leaves the terminal's own color.
#[derive(Debug, Clone, Copy, PartialEq, Eq, Structural)]
pub struct Style {
    pub fg: Option<Color>,
    pub bg: Option<Color>,
    pub bold: bool,
    pub dim: bool,
    pub italic: bool,
    pub underlined: bool,
    pub reversed: bool,
}

/// The style that changes nothing.
#[verifier::allow_in_spec]
pub fn plain() -> Style
    returns
        (Style {
            fg: None,
            bg: None,
            bold: false,
            dim: false,
            italic: false,
            underlined: false,
            reversed: false,
        }),
{
    Style {
        fg: None,
        bg: None,
        bold: false,
        dim: false,
        italic: false,
        underlined: false,
        reversed: false,
    }
}

/// A foreground color alone.
#[verifier::allow_in_spec]
pub fn fg(c: Color) -> Style
    returns
        (Style { fg: Some(c), ..plain() }),
{
    Style { fg: Some(c), ..plain() }
}

/// A background color alone.
#[verifier::allow_in_spec]
pub fn bg(c: Color) -> Style
    returns
        (Style { bg: Some(c), ..plain() }),
{
    Style { bg: Some(c), ..plain() }
}

/// A foreground on a background.
#[verifier::allow_in_spec]
pub fn fg_bg(c: Color, b: Color) -> Style
    returns
        (Style { fg: Some(c), bg: Some(b), ..plain() }),
{
    Style { fg: Some(c), bg: Some(b), ..plain() }
}

/// The style of the row under the cursor.
#[verifier::allow_in_spec]
pub fn cursor_style() -> Style
    returns
        fg_bg(Color::Black, Color::Cyan),
{
    fg_bg(Color::Black, Color::Cyan)
}

/// A bold foreground color.
#[verifier::allow_in_spec]
pub fn bold_fg(c: Color) -> Style
    returns
        (Style { fg: Some(c), bold: true, ..plain() }),
{
    Style { fg: Some(c), bold: true, ..plain() }
}

/// `s` with another foreground color.
#[verifier::allow_in_spec]
pub fn recolored(s: Style, c: Color) -> Style
    returns
        (Style { fg: Some(c), ..s }),
{
    Style { fg: Some(c), ..s }
}

/// A run of text in one style.
#[derive(Debug, PartialEq, Eq)]
pub struct Span {
    pub text: String,
    pub style: Style,
}

/// What a span shows.
#[verifier::ext_equal]
pub struct SpanView {
    pub text: Seq<char>,
    pub style: Style,
}

impl View for Span {
    type V = SpanView;

    open spec fn view(&self) -> SpanView {
        SpanView { text: self.text@, style: self.style }
    }
}

/// One line of spans.
#[derive(Debug, PartialEq, Eq)]
pub struct Line {
    pub spans: Vec<Span>,
}

/// What each of the spans shows.
pub open spec fn span_views(s: Seq<Span>) -> Seq<SpanView> {
    s.map_values(|x: Span| x@)
}

impl View for Line {
    type V = Seq<SpanView>;

    open spec fn view(&self) -> Seq<SpanView> {
        span_views(self.spans@)
    }
}

/// What each of the lines shows.
pub open spec fn line_views(s: Seq<Line>) -> Seq<Seq<SpanView>> {
    s.map_values(|x: Line| x@)
}

/// A span in ghost form.
pub open spec fn sp(text: Seq<char>, style: Style) -> SpanView {
    SpanView { text, style }
}

impl Line {
    /// The characters of the line, its spans one after the other.
    pub fn content(&self) -> (r: String)
        ensures
            r@ == line_text(self@),
    {
        let mut r = String::new();
        let mut i: usize = 0;
        while i < self.spans.len()
            invariant
                i <= self.spans@.len(),
                r@ == line_text(self@.take(i as int)),
            decreases self.spans@.len() - i,
        {
            r.append(self.spans[i].text.as_str());
            assert(self@.take(i + 1).drop_last() =~= self@.take(i as int));
            assert(self@.take(i + 1).last() == self.spans@[i as int]@);
            i += 1;
        }
        assert(self@.take(self@.len() as int) =~= self@);
        r
    }
}

/// The characters of a line, its spans one after the other.
pub open spec fn line_text(l: Seq<SpanView>) -> Seq<char>
    decreases l.len(),
{
    if l.len() == 0 {
        Seq::empty()
    } else {
        line_text(l.drop_last()) + l.last().text
    }
}

/// A span.
pub fn span(text: String, style: Style) -> (r: Span)
    ensures
        r@ == sp(text@, style),
{
    Span { text, style }
}

/// A span of fixed text.
pub fn label(text: &str, style: Style) -> (r: Span)
    ensures
        r@ == sp(text@, style),
{
    Span { text: String::from_str(text), style }
}

/// A line without text.
pub fn blank() -> (r: Line)
    ensures
        r@ == seq![sp(""@, plain())],
{
    line1(label("", plain()))
}

/// A line of one span.
pub fn line1(a: Span) -> (r: Line)
    ensures
        r@ == seq![a@],
{
    let mut spans: Vec<Span> = Vec::new();
    spans.push(a);
    let r = Line { spans };
    assert(r@ =~= seq![a@]);
    r
}

/// A line of two spans.
pub fn line2(a: Span, b: Span) -> (r: Line)
    ensures
        r@ == seq![a@, b@],
{
    let mut spans: Vec<Span> = Vec::new();
    spans.push(a);
    spans.push(b);
    let r = Line { spans };
    assert(r@ =~= seq![a@, b@]);
    r
}

/// A line of three spans.
pub fn line3(a: Span, b: Span, c: Span) -> (r: Line)
    ensures
        r@ == seq![a@, b@, c@],
{
    let mut spans: Vec<Span> = Vec::new();
    spans.push(a);
    spans.push(b);
    spans.push(c);
    let r = Line { spans };
    assert(r@ =~= seq![a@, b@, c@]);
    r
}

/// Adds a span at the end of a line.
pub fn push_span(line: &mut Line, s: Span)
    ensures
        final(line)@ == old(line)@.push(s@),
{
    let ghost before = line.spans@;
    line.spans.push(s);
    assert(span_views(before.push(s)) =~= span_views(before).push(s@));
}

/// Adds spans at the end of a line.
pub fn extend_line(line: &mut Line, more: Vec<Span>)
    ensures
        final(line)@ == old(line)@ + span_views(more@),
{
    let ghost before = line.spans@;
    let mut rest = more;
    line.spans.append(&mut rest);
    assert(span_views(before + more@) =~= span_views(before) + span_views(more@));
}

/// Adds a line at the end.
pub fn push_line(lines: &mut Vec<Line>, l: Line)
    ensures
        line_views(final(lines)@) == line_views(old(lines)@).push(l@),
{
    let ghost before = lines@;
    lines.push(l);
    assert(line_views(before.push(l)) =~= line_views(before).push(l@));
}

/// Adds lines at the end.
pub fn push_lines(lines: &mut Vec<Line>, more: Vec<Line>)
    ensures
        line_views(final(lines)@) == line_views(old(lines)@) + line_views(more@),
{
    let ghost before = lines@;
    let mut rest = more;
    lines.append(&mut rest);
    assert(line_views(before + more@) =~= line_views(before) + line_views(more@));
}

/// No lines yet.
pub fn no_lines() -> (r: Vec<Line>)
    ensures
        line_views(r@) == Seq::<Seq<SpanView>>::empty(),
{
    let r: Vec<Line> = Vec::new();
    assert(line_views(r@) =~= Seq::<Seq<SpanView>>::empty());
    r
}

} // verus!
