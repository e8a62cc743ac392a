//! Terminal surfaces and what runs in them.
use crate::search::{starts, starts_with};
use crate::style::Color;
use crate::text::{chars_of, deep, opt_view, string_from, words, words_of};
use vstd::prelude::*;

verus! {

/// What runs in a surface.
#[derive(Debug, Clone, Copy, PartialEq, Eq, Structural)]
pub enum SurfaceKind {
    Claude,
    Codex,
    OtherAgent,
    Shell,
    Remote,
    Unknown,
}

impl SurfaceKind {
    /// The sign that leads the surface's row.
    pub open spec fn glyph_spec(self) -> char {
        match self {
            SurfaceKind::Claude => '✻',
            SurfaceKind::Codex => '▲',
            SurfaceKind::OtherAgent => '◆',
            SurfaceKind::Shell => '$',
            SurfaceKind::Remote => '⇅',
            SurfaceKind::Unknown => '·',
        }
    }

    /// The sign that leads the surface's row.
    pub fn glyph(&self) -> (r: char)
        ensures
            r == self.glyph_spec(),
    {
        match self {
            SurfaceKind::Claude => '✻',
            SurfaceKind::Codex => '▲',
            SurfaceKind::OtherAgent => '◆',
            SurfaceKind::Shell => '$',
            SurfaceKind::Remote => '⇅',
            SurfaceKind::Unknown => '·',
        }
    }

    /// An agent, as opposed to a shell or a remote client.
    pub open spec fn is_agent_spec(self) -> bool {
        self == SurfaceKind::Claude || self == SurfaceKind::Codex || self == SurfaceKind::OtherAgent
    }

    /// Whether an agent runs in the surface.
    pub fn is_agent(&self) -> (r: bool)
        ensures
            r == self.is_agent_spec(),
    {
        match self {
            SurfaceKind::Claude | SurfaceKind::Codex | SurfaceKind::OtherAgent => true,
            _ => false,
        }
    }
}

/// The kind that a row's leading character stands for.
pub open spec fn kind_of_glyph(c: char) -> Option<SurfaceKind> {
    if c == '✻' {
        Some(SurfaceKind::Claude)
    } else if c == '▲' {
        Some(SurfaceKind::Codex)
    } else if c == '◆' {
        Some(SurfaceKind::OtherAgent)
    } else if c == '$' {
        Some(SurfaceKind::Shell)
    } else if c == '⇅' {
        Some(SurfaceKind::Remote)
    } else if c == '·' {
        Some(SurfaceKind::Unknown)
    } else {
        None
    }
}

/// Recognizes a row's leading character as the sign of a kind.
pub fn glyph_kind(c: char) -> (r: Option<SurfaceKind>)
    ensures
        r == kind_of_glyph(c),
{
    match c {
        '✻' => Some(SurfaceKind::Claude),
        '▲' => Some(SurfaceKind::Codex),
        '◆' => Some(SurfaceKind::OtherAgent),
        '$' => Some(SurfaceKind::Shell),
        '⇅' => Some(SurfaceKind::Remote),
        '·' => Some(SurfaceKind::Unknown),
        _ => None,
    }
}

/// Every kind is recognized by its sign, and by no other.
pub proof fn glyphs_identify_kinds(k: SurfaceKind, c: char)
    ensures
        kind_of_glyph(k.glyph_spec()) == Some(k),
        kind_of_glyph(c) == Some(k) ==> c == k.glyph_spec(),
{
}

/// The color of a kind's sign and label.
pub open spec fn color_of_kind(kind: SurfaceKind) -> Color {
    match kind {
        SurfaceKind::Claude => Color::Rgb(217, 119, 6),
        SurfaceKind::Codex => Color::Rgb(6, 182, 212),
        SurfaceKind::OtherAgent => Color::Magenta,
        SurfaceKind::Shell => Color::Gray,
        SurfaceKind::Remote => Color::Rgb(34, 197, 94),
        SurfaceKind::Unknown => Color::DarkGray,
    }
}

/// The color of a kind's sign and label.
pub fn kind_color(kind: SurfaceKind) -> (r: Color)
    ensures
        r == color_of_kind(kind),
{
    match kind {
        SurfaceKind::Claude => Color::Rgb(217, 119, 6),
        SurfaceKind::Codex => Color::Rgb(6, 182, 212),
        SurfaceKind::OtherAgent => Color::Magenta,
        SurfaceKind::Shell => Color::Gray,
        SurfaceKind::Remote => Color::Rgb(34, 197, 94),
        SurfaceKind::Unknown => Color::DarkGray,
    }
}

/// A terminal surface of a workspace.
#[derive(Debug, PartialEq, Eq)]
pub struct SurfaceInfo {
    pub title: String,
    pub ref_id: String,
    pub uuid: Option<String>,
    pub tty: Option<String>,
    pub kind: SurfaceKind,
    pub focused: bool,
}

impl Clone for SurfaceInfo {
    fn clone(&self) -> (r: Self)
        ensures
            r == *self,
    {
        SurfaceInfo {
            title: self.title.clone(),
            ref_id: self.ref_id.clone(),
            uuid: crate::text::clone_opt(&self.uuid),
            tty: crate::text::clone_opt(&self.tty),
            kind: self.kind,
            focused: self.focused,
        }
    }
}

/// The first word at or after `i` that names a surface.
pub open spec fn surface_word(ws: Seq<Seq<char>>, i: int) -> Option<Seq<char>>
    decreases ws.len() - i,
{
    if i < 0 || i >= ws.len() {
        None
    } else if starts_with(ws[i], "surface:"@) && ws[i].len() > 8 {
        Some(ws[i])
    } else {
        surface_word(ws, i + 1)
    }
}

/// The surface that the multiplexer's answer to a request for a new one names.
pub fn new_surface_ref(output: &str) -> (r: Option<String>)
    ensures
        opt_view(r) == surface_word(words(output@), 0),
{
    proof {
        reveal_strlit("surface:");
    }
    let ws = words_of(&chars_of(output));
    let mut i: usize = 0;
    while i < ws.len()
        invariant
            i <= ws@.len(),
            deep(ws@) == words(output@),
            surface_word(words(output@), 0) == surface_word(words(output@), i as int),
        decreases ws@.len() - i,
    {
        assert(deep(ws@)[i as int] == ws@[i as int]@);
        if starts(&ws[i], "surface:") && ws[i].len() > 8 {
            return Some(string_from(&ws[i]));
        }
        i += 1;
    }
    None
}

/// A copy of a list of surfaces.
pub fn clone_surfaces(v: &Vec<SurfaceInfo>) -> (r: Vec<SurfaceInfo>)
    ensures
        r@ == v@,
{
    let mut r: Vec<SurfaceInfo> = Vec::new();
    let mut i: usize = 0;
    while i < v.len()
        invariant
            i <= v@.len(),
            r@ == v@.take(i as int),
        decreases v@.len() - i,
    {
        r.push(v[i].clone());
        i += 1;
    }
    assert(r@ =~= v@);
    r
}

} // verus!
