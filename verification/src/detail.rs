//! The detail pane of a workspace: what was asked, what is happening, and what
//! comes next.
use crate::agents::AgentTable;
use crate::mesh::is_active_order;
use crate::numeral::{decimal, decimal_string};
use crate::search::{contains, has_text};
use crate::sidebar::{spinner, spinner_frame};
use crate::style::{
    blank, bold_fg, fg, fg_bg, label, line1, line2, line3, line_views, no_lines, plain, push_line,
    push_span, sp, span, Color, Line, SpanView, Style,
};
use crate::text::{
    chars_of, concat2, concat3, deep, lines, lines_of, same, string_from, trim, trim_chars, views,
};
use crate::trajectory_edit::TrajectoryEditState;
use crate::trajectory_view::{detail_body, DetailBody, RenderHints};
use crate::workspace::{is_device_list, WorkspaceState};
use vstd::prelude::*;

verus! {

// ---------------------------------------------------------------------------
// Header
// ---------------------------------------------------------------------------

/// The badge of a status word.
pub open spec fn badge_style(status: Seq<char>) -> Style {
    if status == "active"@ {
        fg_bg(Color::Black, Color::Green)
    } else if status == "idle"@ {
        fg_bg(Color::Black, Color::Yellow)
    } else if status == "waiting"@ {
        fg_bg(Color::White, Color::Red)
    } else if status == "done"@ {
        fg_bg(Color::White, Color::DarkGray)
    } else {
        fg(Color::DarkGray)
    }
}

/// The badge of a status word.
pub fn status_color(status: &str) -> (r: Style)
    ensures
        r == badge_style(status@),
{
    if same(status, "active") {
        fg_bg(Color::Black, Color::Green)
    } else if same(status, "idle") {
        fg_bg(Color::Black, Color::Yellow)
    } else if same(status, "waiting") {
        fg_bg(Color::White, Color::Red)
    } else if same(status, "done") {
        fg_bg(Color::White, Color::DarkGray)
    } else {
        fg(Color::DarkGray)
    }
}

/// One span when there is a text, none otherwise.
pub open spec fn when_some(text: Seq<char>, s: SpanView) -> Seq<SpanView> {
    if text.len() > 0 {
        seq![s]
    } else {
        Seq::empty()
    }
}

/// Name, status, spinner, agent, host and duration.
pub open spec fn title_spans(
    ws: WorkspaceState,
    agents: AgentTable,
    agent: Seq<char>,
    host: Seq<char>,
    ms: int,
) -> Seq<SpanView> {
    let status = ws.state_spec(agents).label_spec();
    seq![
        sp(" "@ + ws.workspace.name@ + " "@, bold_fg(Color::White)),
        sp(" "@ + status + " "@, badge_style(status)),
    ] + (if ws.loading {
        seq![sp(" "@ + seq![spinner(ms)] + " "@, fg(Color::Cyan))]
    } else {
        Seq::empty()
    }) + when_some(agent, sp(" "@ + agent + " "@, fg(Color::Cyan))) + when_some(
        host,
        sp(" "@ + host + " "@, fg(Color::Magenta)),
    ) + (match ws.screen_insights.duration {
        Some(d) => seq![sp(" "@ + d@ + "  "@, fg(Color::DarkGray))],
        None => Seq::empty(),
    })
}

/// The session's topic, empty when there is none.
pub open spec fn topic_of(ws: WorkspaceState) -> Seq<char> {
    if ws.session is Some && ws.session.unwrap().frontmatter.topic is Some {
        ws.session.unwrap().frontmatter.topic.unwrap()@
    } else {
        ""@
    }
}

/// The line of directory and topic, when there is one of them.
pub open spec fn place_lines(dir: Seq<char>, topic: Seq<char>) -> Seq<Seq<SpanView>> {
    let quiet = fg(Color::DarkGray);
    if dir.len() > 0 && topic.len() > 0 {
        seq![seq![sp("  "@ + dir, quiet), sp(" · "@, quiet), sp(topic, quiet)]]
    } else if dir.len() > 0 {
        seq![seq![sp("  "@ + dir, quiet)]]
    } else if topic.len() > 0 {
        seq![seq![sp("  "@, plain()), sp(topic, quiet)]]
    } else {
        Seq::empty()
    }
}

/// The header of the pane.
pub open spec fn header_lines(
    ws: WorkspaceState,
    agents: AgentTable,
    agent: Seq<char>,
    host: Seq<char>,
    dir: Seq<char>,
    ms: int,
) -> Seq<Seq<SpanView>> {
    seq![title_spans(ws, agents, agent, host, ms)] + place_lines(dir, topic_of(ws))
}

/// A character as a text.
fn text_of(c: char) -> (r: String)
    ensures
        r@ == seq![c],
{
    let mut s = String::new();
    s.push(c);
    assert(s@ =~= seq![c]);
    s
}

fn render_title(
    ws: &WorkspaceState,
    agents: &AgentTable,
    agent: &str,
    host: &str,
    ms: u64,
) -> (r: Line)
    ensures
        r@ == title_spans(*ws, *agents, agent@, host@, ms as int),
{
    let status = ws.agent_state(agents).label();
    let mut line = line2(
        span(concat3(" ", ws.workspace.name.as_str(), " "), bold_fg(Color::White)),
        span(concat3(" ", status, " "), status_color(status)),
    );
    if ws.loading {
        let sign = text_of(spinner_frame(ms));
        push_span(&mut line, span(concat3(" ", sign.as_str(), " "), fg(Color::Cyan)));
    }
    if agent.unicode_len() > 0 {
        push_span(&mut line, span(concat3(" ", agent, " "), fg(Color::Cyan)));
    }
    if host.unicode_len() > 0 {
        push_span(&mut line, span(concat3(" ", host, " "), fg(Color::Magenta)));
    }
    if let Some(d) = &ws.screen_insights.duration {
        push_span(&mut line, span(concat3(" ", d.as_str(), "  "), fg(Color::DarkGray)));
    }
    assert(line@ =~= title_spans(*ws, *agents, agent@, host@, ms as int));
    line
}

fn render_header_lines(
    lines: &mut Vec<Line>,
    ws: &WorkspaceState,
    agents: &AgentTable,
    agent: &str,
    host: &str,
    dir: &str,
    ms: u64,
)
    ensures
        line_views(final(lines)@) == line_views(old(lines)@) + header_lines(
            *ws,
            *agents,
            agent@,
            host@,
            dir@,
            ms as int,
        ),
{
    let ghost before = line_views(lines@);
    push_line(lines, render_title(ws, agents, agent, host, ms));
    let empty = String::from_str("");
    let topic = match &ws.session {
        Some(s) => match &s.frontmatter.topic {
            Some(t) => t.as_str(),
            None => empty.as_str(),
        },
        None => empty.as_str(),
    };
    assert(topic@ == topic_of(*ws));
    let quiet = fg(Color::DarkGray);
    if dir.unicode_len() > 0 && topic.unicode_len() > 0 {
        push_line(
            lines,
            line3(span(concat2("  ", dir), quiet), label(" · ", quiet), label(topic, quiet)),
        );
    } else if dir.unicode_len() > 0 {
        push_line(lines, line1(span(concat2("  ", dir), quiet)));
    } else if topic.unicode_len() > 0 {
        push_line(lines, line2(label("  ", plain()), label(topic, quiet)));
    }
    assert(line_views(lines@) =~= before + header_lines(*ws, *agents, agent@, host@, dir@, ms as int));
}

// ---------------------------------------------------------------------------
// Blocks
// ---------------------------------------------------------------------------

/// A line without text, in ghost form.
pub open spec fn gap() -> Seq<SpanView> {
    seq![sp(""@, plain())]
}

/// What the user asked.
pub open spec fn ask_lines(ws: WorkspaceState) -> Seq<Seq<SpanView>> {
    match ws.screen_insights.user_prompt {
        Some(p) => seq![
            seq![sp("  › "@, fg(Color::Yellow)), sp(p@, bold_fg(Color::White))],
            gap(),
        ],
        None => Seq::empty(),
    }
}

/// What the agent does, or how long it worked.
pub open spec fn activity_lines(ws: WorkspaceState) -> Seq<Seq<SpanView>> {
    if ws.screen_insights.activity is Some {
        seq![seq![sp("  "@ + ws.screen_insights.activity.unwrap()@, fg(Color::Green))]]
    } else if ws.screen_insights.duration is Some {
        seq![
            seq![
                sp(
                    "  Worked for "@ + ws.screen_insights.duration.unwrap()@,
                    fg(Color::DarkGray),
                ),
            ],
        ]
    } else {
        Seq::empty()
    }
}

/// How many tasks are done, and the first that is not.
pub open spec fn task_lines(ws: WorkspaceState) -> Seq<Seq<SpanView>> {
    let i = ws.screen_insights;
    if i.tasks_total > 0 {
        let count = sp(
            "  Tasks: "@ + decimal(i.tasks_done as nat) + "/"@ + (decimal(i.tasks_total as nat)
                + " ✔"@),
            fg(Color::Cyan),
        );
        seq![
            match i.pending_task {
                Some(p) => seq![count, sp("  — "@ + p@, fg(Color::Yellow))],
                None => seq![count],
            },
        ]
    } else {
        Seq::empty()
    }
}

/// The trajectory in a sentence: the summary in memory, else the session file's.
pub open spec fn told_trajectory(ws: WorkspaceState) -> Option<Seq<char>> {
    if ws.summary is Some {
        Some(ws.summary.unwrap().trajectory@)
    } else if ws.session is Some && ws.session.unwrap().trajectory is Some {
        Some(ws.session.unwrap().trajectory.unwrap()@)
    } else {
        None
    }
}

/// The trajectory, or a note that it is being summarized.
pub open spec fn trajectory_lines(ws: WorkspaceState, ms: int) -> Seq<Seq<SpanView>> {
    match told_trajectory(ws) {
        Some(t) => seq![seq![sp("  "@ + t, fg(Color::Cyan))]],
        None => if ws.summarizing {
            seq![
                seq![
                    sp("  "@, plain()),
                    sp(seq![spinner(ms)] + " "@, fg(Color::Cyan)),
                    sp("summarizing via codex…"@, fg(Color::DarkGray)),
                ],
            ]
        } else {
            Seq::empty()
        },
    }
}

/// What is happening, and a gap after it when there is anything to say.
pub open spec fn status_lines(ws: WorkspaceState, ms: int) -> Seq<Seq<SpanView>> {
    let all = activity_lines(ws) + task_lines(ws) + trajectory_lines(ws, ms);
    if all.len() > 0 {
        all.push(gap())
    } else {
        all
    }
}

/// Texts as lines of one span, each behind a prefix.
pub open spec fn prefixed(texts: Seq<Seq<char>>, prefix: Seq<char>, style: Style) -> Seq<
    Seq<SpanView>,
> {
    texts.map_values(|t: Seq<char>| seq![sp(prefix + t, style)])
}

/// The user's notes.
pub open spec fn note_lines(ws: WorkspaceState) -> Seq<Seq<SpanView>> {
    seq![
        seq![
            sp("─── Notes (n to edit) ─────────────────────────"@, fg(Color::DarkGray)),
        ],
    ] + (match ws.notes {
        Some(n) => prefixed(lines(n@), "  "@, fg(Color::White)),
        None => seq![seq![sp("  (no notes yet)"@, fg(Color::DarkGray))]],
    }) + seq![gap()]
}

/// The progress that the session file records.
pub open spec fn progress_lines(ws: WorkspaceState) -> Seq<Seq<SpanView>> {
    if ws.session is Some && ws.session.unwrap().bullets@.len() > 0 {
        seq![seq![sp("Progress:"@, bold_fg(Color::White))]] + prefixed(
            views(ws.session.unwrap().bullets@),
            "  - "@,
            fg(Color::Gray),
        ) + seq![gap()]
    } else {
        Seq::empty()
    }
}

/// The next steps: the summary's, else the session file's.
pub open spec fn next_steps(ws: WorkspaceState) -> Seq<String> {
    if ws.summary is Some && ws.summary.unwrap().next_steps@.len() > 0 {
        ws.summary.unwrap().next_steps@
    } else if ws.session is Some && ws.session.unwrap().next_steps@.len() > 0 {
        ws.session.unwrap().next_steps@
    } else {
        Seq::empty()
    }
}

/// One step; a finished one is dim.
pub open spec fn step_line(t: Seq<char>) -> Seq<SpanView> {
    seq![
        sp(
            "  "@ + t,
            fg(
                if has_text(t, "[x]"@) {
                    Color::DarkGray
                } else {
                    Color::Yellow
                },
            ),
        ),
    ]
}

/// What comes next.
pub open spec fn step_lines(ws: WorkspaceState) -> Seq<Seq<SpanView>> {
    let steps = views(next_steps(ws));
    if steps.len() > 0 {
        seq![seq![sp("Next Steps:"@, bold_fg(Color::White))]] + steps.map_values(
            |t: Seq<char>| step_line(t),
        ) + seq![gap()]
    } else {
        Seq::empty()
    }
}

/// How many of the first `n` lines hold more than white space.
pub open spec fn non_blank(ls: Seq<Seq<char>>, n: int) -> nat
    decreases n,
{
    if n <= 0 {
        0
    } else {
        non_blank(ls, n - 1) + (if trim(ls[n - 1]).len() > 0 {
            1nat
        } else {
            0nat
        })
    }
}

/// The screen, when it shows more than two lines of text.
pub open spec fn screen_lines(ws: WorkspaceState) -> Seq<Seq<SpanView>> {
    match ws.screen_preview {
        Some(p) => {
            let ls = lines(p@);
            if non_blank(ls, ls.len() as int) > 2 {
                seq![
                    seq![
                        sp("─── Screen ────────────────────────────────────"@, fg(Color::DarkGray)),
                    ],
                ] + prefixed(ls, ""@, fg(Color::Gray))
            } else {
                Seq::empty()
            }
        },
        None => Seq::empty(),
    }
}

/// The pane of a workspace without a trajectory document.
pub open spec fn pane_lines(
    ws: WorkspaceState,
    agents: AgentTable,
    agent: Seq<char>,
    host: Seq<char>,
    dir: Seq<char>,
    ms: int,
) -> Seq<Seq<SpanView>> {
    header_lines(ws, agents, agent, host, dir, ms) + seq![gap()] + ask_lines(ws) + status_lines(ws, ms)
        + note_lines(ws) + progress_lines(ws) + step_lines(ws) + screen_lines(ws)
}

fn push_prefixed(out: &mut Vec<Line>, texts: &Vec<String>, prefix: &str, style: Style)
    ensures
        line_views(final(out)@) == line_views(old(out)@) + prefixed(
            views(texts@),
            prefix@,
            style,
        ),
{
    let ghost before = line_views(out@);
    let ghost all = prefixed(views(texts@), prefix@, style);
    let mut i: usize = 0;
    while i < texts.len()
        invariant
            i <= texts@.len(),
            all == prefixed(views(texts@), prefix@, style),
            line_views(out@) =~= before + all.take(i as int),
        decreases texts@.len() - i,
    {
        push_line(out, line1(span(concat2(prefix, texts[i].as_str()), style)));
        assert(all.take(i + 1) =~= all.take(i as int).push(all[i as int]));
        i += 1;
    }
    assert(all.take(all.len() as int) =~= all);
}

fn text_lines(s: &str) -> (r: Vec<String>)
    ensures
        views(r@) == lines(s@),
{
    let ls = lines_of(&chars_of(s));
    let mut r: Vec<String> = Vec::new();
    let mut i: usize = 0;
    while i < ls.len()
        invariant
            i <= ls@.len(),
            views(r@) =~= deep(ls@).take(i as int),
        decreases ls@.len() - i,
    {
        let line = string_from(&ls[i]);
        proof {
            crate::text::lemma_views_push(r@, line);
        }
        r.push(line);
        assert(deep(ls@).take(i + 1) =~= deep(ls@).take(i as int).push(ls@[i as int]@));
        i += 1;
    }
    assert(deep(ls@).take(ls@.len() as int) =~= deep(ls@));
    r
}

fn render_status(out: &mut Vec<Line>, ws: &WorkspaceState, ms: u64)
    ensures
        line_views(final(out)@) == line_views(old(out)@) + status_lines(*ws, ms as int),
{
    let ghost before = line_views(out@);
    let mut has_status = false;
    if let Some(a) = &ws.screen_insights.activity {
        push_line(out, line1(span(concat2("  ", a.as_str()), fg(Color::Green))));
        has_status = true;
    } else if let Some(d) = &ws.screen_insights.duration {
        push_line(out, line1(span(concat2("  Worked for ", d.as_str()), fg(Color::DarkGray))));
        has_status = true;
    }
    assert(line_views(out@) =~= before + activity_lines(*ws));
    if ws.screen_insights.tasks_total > 0 {
        let done = decimal_string(ws.screen_insights.tasks_done as usize);
        let total = decimal_string(ws.screen_insights.tasks_total as usize);
        let head = concat3("  Tasks: ", done.as_str(), "/");
        let tail = concat2(total.as_str(), " ✔");
        let mut line = line1(span(concat2(head.as_str(), tail.as_str()), fg(Color::Cyan)));
        if let Some(p) = &ws.screen_insights.pending_task {
            push_span(&mut line, span(concat2("  — ", p.as_str()), fg(Color::Yellow)));
        }
        assert(line@ =~= task_lines(*ws)[0]);
        push_line(out, line);
        has_status = true;
    }
    assert(line_views(out@) =~= before + (activity_lines(*ws) + task_lines(*ws)));
    let told: Option<&String> = match &ws.summary {
        Some(s) => Some(&s.trajectory),
        None => match &ws.session {
            Some(s) => s.trajectory.as_ref(),
            None => None,
        },
    };
    if let Some(t) = told {
        push_line(out, line1(span(concat2("  ", t.as_str()), fg(Color::Cyan))));
        has_status = true;
    } else if ws.summarizing {
        let sign = text_of(spinner_frame(ms));
        push_line(
            out,
            line3(
                label("  ", plain()),
                span(concat2(sign.as_str(), " "), fg(Color::Cyan)),
                label("summarizing via codex…", fg(Color::DarkGray)),
            ),
        );
        has_status = true;
    }
    let ghost all = activity_lines(*ws) + task_lines(*ws) + trajectory_lines(*ws, ms as int);
    assert(line_views(out@) =~= before + all);
    if has_status {
        push_line(out, blank());
    }
    assert(line_views(out@) =~= before + status_lines(*ws, ms as int));
}

fn render_steps(out: &mut Vec<Line>, steps: &Vec<String>)
    ensures
        line_views(final(out)@) == line_views(old(out)@) + views(steps@).map_values(
            |t: Seq<char>| step_line(t),
        ),
{
    let ghost before = line_views(out@);
    let ghost all = views(steps@).map_values(|t: Seq<char>| step_line(t));
    let mut i: usize = 0;
    while i < steps.len()
        invariant
            i <= steps@.len(),
            all == views(steps@).map_values(|t: Seq<char>| step_line(t)),
            line_views(out@) =~= before + all.take(i as int),
        decreases steps@.len() - i,
    {
        let color = if contains(&chars_of(steps[i].as_str()), "[x]") {
            Color::DarkGray
        } else {
            Color::Yellow
        };
        push_line(out, line1(span(concat2("  ", steps[i].as_str()), fg(color))));
        assert(all.take(i + 1) =~= all.take(i as int).push(all[i as int]));
        i += 1;
    }
    assert(all.take(all.len() as int) =~= all);
}

fn render_next(out: &mut Vec<Line>, ws: &WorkspaceState)
    ensures
        line_views(final(out)@) == line_views(old(out)@) + step_lines(*ws),
{
    let ghost before = line_views(out@);
    let none: Vec<String> = Vec::new();
    let steps: &Vec<String> = match &ws.summary {
        Some(s) if s.next_steps.len() > 0 => &s.next_steps,
        _ => match &ws.session {
            Some(s) if s.next_steps.len() > 0 => &s.next_steps,
            _ => &none,
        },
    };
    assert(steps@ =~= next_steps(*ws));
    if steps.len() > 0 {
        push_line(out, line1(label("Next Steps:", bold_fg(Color::White))));
        render_steps(out, steps);
        push_line(out, blank());
    }
    assert(line_views(out@) =~= before + step_lines(*ws));
}

fn render_notes(out: &mut Vec<Line>, ws: &WorkspaceState)
    ensures
        line_views(final(out)@) == line_views(old(out)@) + note_lines(*ws),
{
    let ghost before = line_views(out@);
    push_line(
        out,
        line1(label("─── Notes (n to edit) ─────────────────────────", fg(Color::DarkGray))),
    );
    match &ws.notes {
        Some(n) => {
            push_prefixed(out, &text_lines(n.as_str()), "  ", fg(Color::White));
        },
        None => {
            push_line(out, line1(label("  (no notes yet)", fg(Color::DarkGray))));
        },
    }
    push_line(out, blank());
    assert(line_views(out@) =~= before + note_lines(*ws));
}

fn render_progress(out: &mut Vec<Line>, ws: &WorkspaceState)
    ensures
        line_views(final(out)@) == line_views(old(out)@) + progress_lines(*ws),
{
    let ghost before = line_views(out@);
    if let Some(s) = &ws.session {
        if s.bullets.len() > 0 {
            push_line(out, line1(label("Progress:", bold_fg(Color::White))));
            push_prefixed(out, &s.bullets, "  - ", fg(Color::Gray));
            push_line(out, blank());
        }
    }
    assert(line_views(out@) =~= before + progress_lines(*ws));
}

fn render_screen(out: &mut Vec<Line>, ws: &WorkspaceState)
    ensures
        line_views(final(out)@) == line_views(old(out)@) + screen_lines(*ws),
{
    let ghost before = line_views(out@);
    if let Some(p) = &ws.screen_preview {
        let ls = text_lines(p.as_str());
        let ghost all = views(ls@);
        let mut count: usize = 0;
        let mut i: usize = 0;
        while i < ls.len()
            invariant
                i <= ls@.len(),
                all == views(ls@),
                count <= i,
                count == non_blank(all, i as int),
            decreases ls@.len() - i,
        {
            if trim_chars(&chars_of(ls[i].as_str())).len() > 0 {
                count += 1;
            }
            i += 1;
        }
        if count > 2 {
            push_line(
                out,
                line1(
                    label("─── Screen ────────────────────────────────────", fg(Color::DarkGray)),
                ),
            );
            push_prefixed(out, &ls, "", fg(Color::Gray));
        }
    }
    assert(line_views(out@) =~= before + screen_lines(*ws));
}

/// The pane of a workspace without a trajectory document, given its agent, host
/// and directory.
pub fn overview_lines(
    ws: &WorkspaceState,
    agents: &AgentTable,
    agent: &str,
    host: &str,
    dir: &str,
    ms: u64,
) -> (r: Vec<Line>)
    ensures
        line_views(r@) == pane_lines(*ws, *agents, agent@, host@, dir@, ms as int),
{
    let mut out = no_lines();
    render_header_lines(&mut out, ws, agents, agent, host, dir, ms);
    push_line(&mut out, blank());
    if let Some(p) = &ws.screen_insights.user_prompt {
        push_line(
            &mut out,
            line2(label("  › ", fg(Color::Yellow)), label(p.as_str(), bold_fg(Color::White))),
        );
        push_line(&mut out, blank());
    }
    assert(line_views(out@) =~= header_lines(*ws, *agents, agent@, host@, dir@, ms as int) + seq![gap()]
        + ask_lines(*ws));
    render_status(&mut out, ws, ms);
    render_notes(&mut out, ws);
    render_progress(&mut out, ws);
    render_next(&mut out, ws);
    render_screen(&mut out, ws);
    out
}

/// `agent`, `host` and `dir` are the workspace's agent, host and directory.
pub open spec fn describes(
    ws: WorkspaceState,
    agents: AgentTable,
    agent: Seq<char>,
    host: Seq<char>,
    dir: Seq<char>,
) -> bool {
    &&& exists|order: Seq<int>| #[trigger]
        is_active_order(ws.remote_surfaces.entries@, order) && agent == ws.agent_name_spec(
            agents,
            order,
        )
    &&& exists|devices: Seq<Seq<char>>| #[trigger]
        is_device_list(ws.remote_surfaces.entries@, devices) && host == ws.host_name_spec(devices)
    &&& exists|order: Seq<int>| #[trigger]
        is_active_order(ws.remote_surfaces.entries@, order) && dir == ws.working_dir_spec(
            agents,
            order,
        )
}

/// What the detail pane shows.
pub enum DetailContent {
    /// No workspace is selected.
    Unselected,
    /// The workspace's trajectory document.
    Trajectory(DetailBody),
    /// The pane of a workspace that has no such document.
    Lines(Vec<Line>),
}

/// Lays out the detail pane for an inner area of the given size.
pub fn detail_content(
    ws: Option<&WorkspaceState>,
    agents: &AgentTable,
    scroll: u16,
    hints: &RenderHints,
    width: u16,
    height: u16,
    ms: u64,
) -> (r: DetailContent)
    requires
        ws is Some ==> ws.unwrap().remote_surfaces.well_formed(),
    ensures
        match ws {
            None => r is Unselected,
            Some(w) => match w.trajectory {
                Some(doc) => r matches DetailContent::Trajectory(b) && is_body(
                    b,
                    doc,
                    scroll,
                    w.edit_state,
                    *hints,
                    width,
                    height,
                ),
                None => r matches DetailContent::Lines(l) && exists|
                    agent: Seq<char>,
                    host: Seq<char>,
                    dir: Seq<char>,
                | #[trigger]
                    describes(*w, *agents, agent, host, dir) && line_views(l@) == pane_lines(
                        *w,
                        *agents,
                        agent,
                        host,
                        dir,
                        ms as int,
                    ),
            },
        },
{
    match ws {
        None => DetailContent::Unselected,
        Some(w) => match &w.trajectory {
            Some(doc) => DetailContent::Trajectory(
                detail_body(doc, scroll, w.edit_state.as_ref(), hints, width, height),
            ),
            None => {
                let agent = w.agent_name(agents);
                let host = w.host_name();
                let dir = w.working_dir(agents);
                assert(describes(*w, *agents, agent@, host@, dir@));
                DetailContent::Lines(
                    overview_lines(w, agents, agent.as_str(), host.as_str(), dir.as_str(), ms),
                )
            },
        },
    }
}

/// `b` lays out the document `doc` for a pane of the given size.
pub open spec fn is_body(
    b: DetailBody,
    doc: crate::trajectory::TrajectoryDoc,
    scroll: u16,
    edit: Option<TrajectoryEditState>,
    hints: RenderHints,
    width: u16,
    height: u16,
) -> bool {
    let e = match edit {
        Some(s) => Some(s@),
        None => None,
    };
    let n = doc@.sections.len() as int;
    &&& line_views(b.lines@) == crate::trajectory_view::body_lines(doc@, n, e, hints@, width as int)
    &&& b.scroll == crate::trajectory_view::followed_scroll(
        crate::trajectory_view::line_number(
            crate::trajectory_view::body_cursor(doc@, n, e, hints@, width as int),
        ),
        crate::trajectory_view::navigating(e),
        scroll,
        height,
    )
}

} // verus!
