//! The list of workspaces.
use crate::agents::AgentTable;
use crate::style::{
    bg, fg, fg_bg, label, line_text, line_views, no_lines, push_line, push_span, sp, span, Color,
    Line, SpanView, Style,
};
use crate::text::{chars_of, concat3, opt_view, same};
use crate::trajectory_view::{spaces, spaces_string};
use crate::workspace::{AgentState, WorkspaceState};
use crate::wrap::{fitted, fitted_text_fits, truncate_for_width};
use vstd::prelude::*;

verus! {

// ---------------------------------------------------------------------------
// Accent colors
// ---------------------------------------------------------------------------

/// The value of a hexadecimal digit.
pub open spec fn hex_value(c: char) -> Option<int> {
    if '0' <= c && c <= '9' {
        Some(c as int - '0' as int)
    } else if 'a' <= c && c <= 'f' {
        Some(c as int - 'a' as int + 10)
    } else if 'A' <= c && c <= 'F' {
        Some(c as int - 'A' as int + 10)
    } else {
        None
    }
}

/// The byte that two hexadecimal digits write.
pub open spec fn hex_byte(hi: char, lo: char) -> Option<int> {
    if hex_value(hi) is Some && hex_value(lo) is Some {
        Some(hex_value(hi).unwrap() * 16 + hex_value(lo).unwrap())
    } else {
        None
    }
}

/// The color that `#RRGGBB` writes.
pub open spec fn hex_color(s: Seq<char>) -> Option<Color> {
    if s.len() == 7 && s[0] == '#' && hex_byte(s[1], s[2]) is Some && hex_byte(s[3], s[4]) is Some
        && hex_byte(s[5], s[6]) is Some {
        Some(
            Color::Rgb(
                hex_byte(s[1], s[2]).unwrap() as u8,
                hex_byte(s[3], s[4]).unwrap() as u8,
                hex_byte(s[5], s[6]).unwrap() as u8,
            ),
        )
    } else {
        None
    }
}

fn hex_digit(c: char) -> (r: Option<u8>)
    ensures
        r is Some == hex_value(c) is Some,
        r is Some ==> r.unwrap() == hex_value(c).unwrap() && r.unwrap() < 16,
{
    let n: u32 = c as u32;
    if '0' <= c && c <= '9' {
        Some((n - 48) as u8)
    } else if 'a' <= c && c <= 'f' {
        Some((n - 87) as u8)
    } else if 'A' <= c && c <= 'F' {
        Some((n - 55) as u8)
    } else {
        None
    }
}

fn hex_pair(hi: char, lo: char) -> (r: Option<u8>)
    ensures
        r is Some == hex_byte(hi, lo) is Some,
        r is Some ==> r.unwrap() == hex_byte(hi, lo).unwrap(),
{
    match (hex_digit(hi), hex_digit(lo)) {
        (Some(a), Some(b)) => Some(a * 16 + b),
        _ => None,
    }
}

/// The accent color of a workspace, when its setting is a color.
pub fn workspace_accent_color(custom: &Option<String>) -> (r: Option<Color>)
    ensures
        r == (match opt_view(*custom) {
            Some(s) => hex_color(s),
            None => None,
        }),
{
    match custom {
        None => None,
        Some(s) => {
            let v = chars_of(s.as_str());
            if v.len() != 7 || v[0] != '#' {
                return None;
            }
            match (hex_pair(v[1], v[2]), hex_pair(v[3], v[4]), hex_pair(v[5], v[6])) {
                (Some(r), Some(g), Some(b)) => Some(Color::Rgb(r, g, b)),
                _ => None,
            }
        },
    }
}

// ---------------------------------------------------------------------------
// The spinner and the status
// ---------------------------------------------------------------------------

/// The sign of the spinner in its `i`-th position.
pub open spec fn frame(i: int) -> char {
    if i == 0 {
        '⠋'
    } else if i == 1 {
        '⠙'
    } else if i == 2 {
        '⠹'
    } else if i == 3 {
        '⠸'
    } else if i == 4 {
        '⠼'
    } else if i == 5 {
        '⠴'
    } else if i == 6 {
        '⠦'
    } else if i == 7 {
        '⠧'
    } else if i == 8 {
        '⠇'
    } else {
        '⠏'
    }
}

/// The sign of the spinner `ms` milliseconds after the epoch: ten signs, each for
/// 80 milliseconds.
pub open spec fn spinner(ms: int) -> char {
    frame((ms / 80) % 10)
}

/// The sign of the spinner `ms` milliseconds after the epoch.
pub fn spinner_frame(ms: u64) -> (r: char)
    ensures
        r == spinner(ms as int),
{
    let i: u64 = (ms / 80) % 10;
    match i {
        0 => '⠋',
        1 => '⠙',
        2 => '⠹',
        3 => '⠸',
        4 => '⠼',
        5 => '⠴',
        6 => '⠦',
        7 => '⠧',
        8 => '⠇',
        _ => '⠏',
    }
}

/// The sign and color of an agent's state. A session that is out of touch shows
/// the sign of an idle one.
pub open spec fn indicator(state: AgentState) -> (char, Color) {
    match state {
        AgentState::Working => ('\u{25cf}', Color::Green),
        AgentState::NeedsMe => ('\u{26a0}', Color::Yellow),
        AgentState::Idle | AgentState::Stale => ('\u{25cb}', Color::DarkGray),
    }
}

/// The sign and color of a workspace's state.
pub fn status_indicator(ws: &WorkspaceState, agents: &AgentTable) -> (r: (char, Color))
    ensures
        r == indicator(ws.state_spec(*agents)),
{
    match ws.agent_state(agents) {
        AgentState::Working => ('\u{25cf}', Color::Green),
        AgentState::NeedsMe => ('\u{26a0}', Color::Yellow),
        AgentState::Idle | AgentState::Stale => ('\u{25cb}', Color::DarkGray),
    }
}

// ---------------------------------------------------------------------------
// Rows
// ---------------------------------------------------------------------------

/// What leads a row: the spinner while the workspace loads, else its state.
pub open spec fn leader(ws: WorkspaceState, agents: AgentTable, ms: int) -> (char, Color) {
    if ws.loading {
        (spinner(ms), Color::Cyan)
    } else {
        indicator(ws.state_spec(agents))
    }
}

/// The session's host in brackets, unless it is the local machine.
pub open spec fn host_badge(ws: WorkspaceState) -> Seq<char> {
    if ws.session is Some && ws.session.unwrap().frontmatter.host is Some
        && ws.session.unwrap().frontmatter.host.unwrap()@ != "mbp"@ {
        " ["@ + ws.session.unwrap().frontmatter.host.unwrap()@ + "]"@
    } else {
        ""@
    }
}

/// The background of a row.
pub open spec fn accent(ws: WorkspaceState) -> Color {
    let custom = match opt_view(ws.workspace.custom_color) {
        Some(s) => hex_color(s),
        None => None,
    };
    match custom {
        Some(c) => c,
        None => Color::DarkGray,
    }
}

/// Zero where the difference would be negative.
pub open spec fn minus(a: int, b: int) -> int {
    if a >= b {
        a - b
    } else {
        0
    }
}

/// The name as far as the row has room for it.
pub open spec fn shown_name(ws: WorkspaceState, body: int) -> Seq<char> {
    fitted(ws.workspace.name@, minus(minus(body, 3), host_badge(ws).len() as int))
}

/// A row: marker, padding, leader, name, host and padding to the end of the body,
/// which is `body` columns wide.
pub open spec fn row(
    ws: WorkspaceState,
    agents: AgentTable,
    selected: bool,
    body: int,
    ms: int,
) -> Seq<SpanView> {
    let accent = accent(ws);
    let name = shown_name(ws, body);
    let badge = host_badge(ws);
    seq![
        sp(
            if selected {
                "▶"@
            } else {
                " "@
            },
            fg(
                if selected {
                    Color::White
                } else {
                    Color::Reset
                },
            ),
        ),
        sp(" "@, bg(accent)),
        sp(seq![leader(ws, agents, ms).0, ' '], fg_bg(leader(ws, agents, ms).1, accent)),
        sp(
            name,
            Style { bold: true, underlined: selected, ..fg_bg(Color::White, accent) },
        ),
        sp(badge, fg_bg(Color::Gray, accent)),
        sp(spaces(body - 3 - name.len() - badge.len()), bg(accent)),
    ]
}

/// The columns of a row's body in a pane `width` columns wide: without the borders
/// and the marker.
pub open spec fn body_width(width: int) -> int {
    minus(minus(width, 2), 1)
}

fn badge_text(ws: &WorkspaceState) -> (r: String)
    ensures
        r@ == host_badge(*ws),
{
    if let Some(session) = &ws.session {
        if let Some(host) = &session.frontmatter.host {
            if !same(host.as_str(), "mbp") {
                return concat3(" [", host.as_str(), "]");
            }
        }
    }
    String::from_str("")
}

/// One row of the list.
pub fn sidebar_row(
    ws: &WorkspaceState,
    agents: &AgentTable,
    is_selected: bool,
    body: u16,
    ms: u64,
) -> (r: Line)
    ensures
        r@ == row(*ws, *agents, is_selected, body as int, ms as int),
{
    let (sign, color) = if ws.loading {
        (spinner_frame(ms), Color::Cyan)
    } else {
        status_indicator(ws, agents)
    };
    let badge = badge_text(ws);
    let accent = match workspace_accent_color(&ws.workspace.custom_color) {
        Some(c) => c,
        None => Color::DarkGray,
    };
    let badge_len: usize = badge.as_str().unicode_len();
    let width: usize = body as usize;
    let room: usize = width.saturating_sub(3).saturating_sub(badge_len);
    let name = truncate_for_width(ws.workspace.name.as_str(), room as u16);
    proof {
        fitted_text_fits(ws.workspace.name@, room as int);
    }
    let name_len: usize = name.as_str().unicode_len();
    let pad: usize = width.saturating_sub(3).saturating_sub(name_len).saturating_sub(badge_len);
    let mut lead = String::new();
    lead.push(sign);
    lead.push(' ');
    assert(lead@ =~= seq![sign, ' ']);
    let padding = spaces_string(pad);
    assert(padding@ =~= spaces(body - 3 - name@.len() - badge@.len()));
    let mut line = Line { spans: Vec::new() };
    assert(line@ =~= Seq::<SpanView>::empty());
    push_span(
        &mut line,
        label(
            if is_selected {
                "▶"
            } else {
                " "
            },
            fg(
                if is_selected {
                    Color::White
                } else {
                    Color::Reset
                },
            ),
        ),
    );
    push_span(&mut line, label(" ", bg(accent)));
    push_span(&mut line, span(lead, fg_bg(color, accent)));
    push_span(
        &mut line,
        span(
            name,
            Style { bold: true, underlined: is_selected, ..fg_bg(Color::White, accent) },
        ),
    );
    push_span(&mut line, span(badge, fg_bg(Color::Gray, accent)));
    push_span(&mut line, span(padding, bg(accent)));
    assert(line@ =~= row(*ws, *agents, is_selected, body as int, ms as int));
    line
}

/// The rows of the list in a pane `width` columns wide.
pub fn sidebar_rows(
    workspaces: &Vec<WorkspaceState>,
    agents: &AgentTable,
    selected: usize,
    width: u16,
    ms: u64,
) -> (r: Vec<Line>)
    ensures
        line_views(r@) == Seq::new(
            workspaces@.len(),
            |i: int| row(workspaces@[i], *agents, i == selected, body_width(width as int), ms as int),
        ),
{
    let body: u16 = width.saturating_sub(2).saturating_sub(1);
    let mut lines = no_lines();
    let mut i: usize = 0;
    while i < workspaces.len()
        invariant
            i <= workspaces@.len(),
            body == body_width(width as int),
            line_views(lines@) =~= Seq::new(
                i as nat,
                |k: int| row(workspaces@[k], *agents, k == selected, body_width(width as int), ms as int),
            ),
        decreases workspaces@.len() - i,
    {
        push_line(&mut lines, sidebar_row(&workspaces[i], agents, i == selected, body, ms));
        i += 1;
    }
    lines
}

/// A row fills the inside of the pane exactly whenever the host fits.
pub proof fn rows_fill_the_pane(
    ws: WorkspaceState,
    agents: AgentTable,
    selected: bool,
    body: int,
    ms: int,
)
    requires
        body >= 3 + host_badge(ws).len(),
    ensures
        line_text(row(ws, agents, selected, body, ms)).len() == body + 1,
{
    reveal_strlit("▶");
    reveal_strlit(" ");
    fitted_text_fits(ws.workspace.name@, minus(minus(body, 3), host_badge(ws).len() as int));
    let r = row(ws, agents, selected, body, ms);
    reveal_with_fuel(line_text, 7);
    let r5 = r.drop_last();
    let r4 = r5.drop_last();
    let r3 = r4.drop_last();
    let r2 = r3.drop_last();
    let r1 = r2.drop_last();
    assert(r1.drop_last() =~= Seq::<SpanView>::empty());
}

/// The selected row, and no other, carries the marker and an underlined name.
pub proof fn selection_is_marked(
    ws: WorkspaceState,
    agents: AgentTable,
    selected: bool,
    body: int,
    ms: int,
)
    ensures
        row(ws, agents, selected, body, ms)[3].style.underlined == selected,
        (row(ws, agents, selected, body, ms)[0].text == "▶"@) == selected,
        forall|i: int| 1 <= i < 6 ==> (#[trigger] row(ws, agents, selected, body, ms)[i]).style.bg == Some(
            accent(ws),
        ),
{
    reveal_strlit("▶");
    reveal_strlit(" ");
    if !selected {
        assert(row(ws, agents, selected, body, ms)[0].text[0] == ' ');
    }
}

} // verus!
