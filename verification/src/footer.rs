//! The footer: key bindings, or the command being typed.
use crate::command::{chars_before, ghost_text, CommandLine, CommandTable, StatusLine};
use crate::style::{bold_fg, fg, label, plain, push_span, sp, span, Color, Line, SpanView, Style};
use crate::text::{chars_of, concat2, concat3, string_of};
use crate::workspace::Focus;
use vstd::prelude::*;

verus! {

/// The keys of a pane and what they do, in the order in which they are shown.
pub open spec fn bindings(focus: Focus) -> Seq<(Seq<char>, Seq<char>)> {
    let first: Seq<(Seq<char>, Seq<char>)> = match focus {
        Focus::Sidebar => seq![("j/k"@, "navigate"@), ("l/⏎"@, "open detail"@)],
        Focus::Detail => seq![("j/k"@, "scroll"@), ("h/esc"@, "back"@)],
    };
    first + seq![
        ("⏎"@, "switch ws"@),
        (":"@, "cmd"@),
        ("s"@, "rescreen"@),
        ("r"@, "summarize"@),
        ("^r"@, "reload"@),
        ("n"@, "notes"@),
        ("q"@, "quit"@),
    ]
}

/// The first `n` bindings as spans, a dot between each two.
pub open spec fn binding_spans(b: Seq<(Seq<char>, Seq<char>)>, n: int) -> Seq<SpanView>
    decreases n,
{
    if n <= 0 {
        Seq::empty()
    } else {
        let before = binding_spans(b, n - 1);
        let parted = if n > 1 {
            before.push(sp("  ·  "@, fg(Color::DarkGray)))
        } else {
            before
        };
        parted.push(sp(" "@ + b[n - 1].0 + " "@, bold_fg(Color::Cyan))).push(
            sp(" "@ + b[n - 1].1, fg(Color::Gray)),
        )
    }
}

fn push_binding(line: &mut Line, key: &str, what: &str, first: bool)
    ensures
        final(line)@ == (if first {
            old(line)@
        } else {
            old(line)@.push(sp("  ·  "@, fg(Color::DarkGray)))
        }).push(sp(" "@ + key@ + " "@, bold_fg(Color::Cyan))).push(
            sp(" "@ + what@, fg(Color::Gray)),
        ),
{
    if !first {
        push_span(line, label("  ·  ", fg(Color::DarkGray)));
    }
    push_span(line, span(concat3(" ", key, " "), bold_fg(Color::Cyan)));
    push_span(line, span(concat2(" ", what), fg(Color::Gray)));
}

/// The line of key bindings.
pub fn footer_line(focus: Focus) -> (r: Line)
    ensures
        r@ == binding_spans(bindings(focus), bindings(focus).len() as int),
{
    let ghost b = bindings(focus);
    let mut line = Line { spans: Vec::new() };
    assert(line@ =~= Seq::<SpanView>::empty());
    match focus {
        Focus::Sidebar => {
            push_binding(&mut line, "j/k", "navigate", true);
            push_binding(&mut line, "l/⏎", "open detail", false);
        },
        Focus::Detail => {
            push_binding(&mut line, "j/k", "scroll", true);
            push_binding(&mut line, "h/esc", "back", false);
        },
    }
    push_binding(&mut line, "⏎", "switch ws", false);
    push_binding(&mut line, ":", "cmd", false);
    push_binding(&mut line, "s", "rescreen", false);
    push_binding(&mut line, "r", "summarize", false);
    push_binding(&mut line, "^r", "reload", false);
    push_binding(&mut line, "n", "notes", false);
    push_binding(&mut line, "q", "quit", false);
    proof {
        reveal_with_fuel(binding_spans, 10);
    }
    line
}

/// Reversed video: the block cursor.
pub open spec fn reversed() -> Style {
    Style { reversed: true, ..plain() }
}

/// What follows the command: how the last one ended.
pub open spec fn status_spans(status: Option<StatusLine>) -> Seq<SpanView> {
    match status {
        Some(StatusLine::Done(m)) => seq![
            sp("    "@, plain()),
            sp("✓ "@ + m@, fg(Color::Green)),
        ],
        Some(StatusLine::Failed(m)) => seq![sp("    "@, plain()), sp("✗ "@ + m@, fg(Color::Red))],
        None => Seq::empty(),
    }
}

/// The command bar: prompt, text before the cursor, block cursor, text after it,
/// the dim suffix and the status.
pub open spec fn command_spans(cl: CommandLine, table: CommandTable) -> Seq<SpanView> {
    let text = cl.buffer@;
    let at = cl.pos();
    seq![
        sp(":"@, bold_fg(Color::Yellow)),
        sp(text.take(at), plain()),
        sp(
            if at < text.len() {
                seq![text[at]]
            } else {
                " "@
            },
            reversed(),
        ),
        sp(
            if at < text.len() {
                text.skip(at + 1)
            } else {
                ""@
            },
            plain(),
        ),
        sp(ghost_text(cl, table), fg(Color::DarkGray)),
    ] + status_spans(cl.status)
}

/// The command bar that takes the place of the key bindings.
pub fn command_line(cl: &CommandLine, table: &CommandTable) -> (r: Line)
    requires
        cl.well_formed(),
    ensures
        r@ == command_spans(*cl, *table),
{
    let v = chars_of(cl.buffer.as_str());
    let n: usize = v.len();
    let at: usize = chars_before(&v, cl.cursor);
    let before = string_of(&v, 0, at);
    assert(before@ =~= cl.buffer@.take(at as int));
    let cursor = if at < n {
        string_of(&v, at, at + 1)
    } else {
        String::from_str(" ")
    };
    assert(at < n ==> cursor@ =~= seq![cl.buffer@[at as int]]);
    let after = if at < n {
        string_of(&v, at + 1, n)
    } else {
        String::from_str("")
    };
    assert(at < n ==> after@ =~= cl.buffer@.skip(at + 1));
    let mut line = Line { spans: Vec::new() };
    assert(line@ =~= Seq::<SpanView>::empty());
    push_span(&mut line, label(":", bold_fg(Color::Yellow)));
    push_span(&mut line, span(before, plain()));
    push_span(&mut line, span(cursor, Style { reversed: true, ..plain() }));
    push_span(&mut line, span(after, plain()));
    push_span(&mut line, span(cl.ghost(table), fg(Color::DarkGray)));
    match &cl.status {
        Some(StatusLine::Done(m)) => {
            push_span(&mut line, label("    ", plain()));
            push_span(&mut line, span(concat2("✓ ", m.as_str()), fg(Color::Green)));
        },
        Some(StatusLine::Failed(m)) => {
            push_span(&mut line, label("    ", plain()));
            push_span(&mut line, span(concat2("✗ ", m.as_str()), fg(Color::Red)));
        },
        None => {},
    }
    assert(line@ =~= command_spans(*cl, *table));
    line
}

} // verus!
