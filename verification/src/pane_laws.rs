//! What the panes beside the document show: workspaces, overview and peek.
use crate::agents::AgentTable;
use crate::clock::Moment;
use crate::detail::{
    ask_lines, badge_style, describes, note_lines, pane_lines, progress_lines, screen_lines,
    status_lines, step_line, step_lines, task_lines, told_trajectory,
};
use crate::mesh::{active_order_is_determined, is_active_order};
use crate::numeral::decimal;
use crate::order::sorted_lists_are_determined;
use crate::peek_view::{
    is_human, log_lines, settled_offset, shown_content, took_log, took_screen, turn_lines,
    PeekState, Turn,
};
use crate::search::{has_text, join};
use crate::sidebar::{accent, row, spinner};
use crate::style::Color;
use crate::text::{ascii_lowered, lines, trim, views, words};
use crate::workspace::{is_device_list, runs_on, AgentState, WorkspaceState};
use vstd::prelude::*;

verus! {

// ---------------------------------------------------------------------------
// Workspaces
// ---------------------------------------------------------------------------

/// A row shows the state of its workspace: a green dot for work, a yellow warning for
/// what waits, a gray ring otherwise, and the spinner while it loads.
pub proof fn a_row_shows_the_workspaces_state(
    ws: WorkspaceState,
    agents: AgentTable,
    selected: bool,
    body: int,
    ms: int,
)
    ensures
        ({
            let lead = row(ws, agents, selected, body, ms)[2];
            let state = ws.state_spec(agents);
            &&& !ws.loading && state == AgentState::Working ==> lead.text == seq!['●', ' ']
                && lead.style.fg == Some(Color::Green)
            &&& !ws.loading && state == AgentState::NeedsMe ==> lead.text == seq!['⚠', ' ']
                && lead.style.fg == Some(Color::Yellow)
            &&& !ws.loading && (state == AgentState::Idle || state == AgentState::Stale)
                ==> lead.text == seq!['○', ' '] && lead.style.fg == Some(Color::DarkGray)
            &&& ws.loading ==> lead.style.fg == Some(Color::Cyan) && lead.text[0] == spinner(ms)
        }),
{
}

/// A row shows the workspace's name, cut where the row has no room, and its host unless
/// it is the local machine.
pub proof fn a_row_shows_name_and_host(
    ws: WorkspaceState,
    agents: AgentTable,
    selected: bool,
    body: int,
    ms: int,
)
    ensures
        ({
            let r = row(ws, agents, selected, body, ms);
            let remote = ws.session is Some && ws.session.unwrap().frontmatter.host is Some
                && ws.session.unwrap().frontmatter.host.unwrap()@ != "mbp"@;
            &&& remote ==> r[4].text == " ["@ + ws.session.unwrap().frontmatter.host.unwrap()@
                + "]"@
            &&& !remote ==> r[4].text == ""@
            &&& ws.workspace.name@.len() + r[4].text.len() + 3 <= body ==> r[3].text
                == ws.workspace.name@
            &&& selected ==> r[0].text == "▶"@
            &&& !selected ==> r[0].text == " "@
        }),
{
}

/// A setting of `#` and six hexadecimal digits gives its color, two digits each for red,
/// green and blue; any other setting gives the usual gray.
pub proof fn a_row_has_the_workspaces_color(
    ws: WorkspaceState,
    r: u8,
    g: u8,
    b: u8,
    digits: Seq<char>,
)
    requires
        ws.workspace.custom_color is Some,
        ws.workspace.custom_color.unwrap()@ == seq!['#'] + digits,
        digits.len() == 6,
        is_hex(r as int / 16, digits[0]) && is_hex(r as int % 16, digits[1]),
        is_hex(g as int / 16, digits[2]) && is_hex(g as int % 16, digits[3]),
        is_hex(b as int / 16, digits[4]) && is_hex(b as int % 16, digits[5]),
    ensures
        accent(ws) == Color::Rgb(r, g, b),
{
    let s = ws.workspace.custom_color.unwrap()@;
    assert(s[1] == digits[0] && s[2] == digits[1] && s[3] == digits[2] && s[4] == digits[3]
        && s[5] == digits[4] && s[6] == digits[5]);
    assert(r as int == (r as int / 16) * 16 + r as int % 16);
    assert(g as int == (g as int / 16) * 16 + g as int % 16);
    assert(b as int == (b as int / 16) * 16 + b as int % 16);
}

/// The character writes the value in hexadecimal.
pub open spec fn is_hex(v: int, c: char) -> bool {
    ||| 0 <= v <= 9 && c as int == '0' as int + v
    ||| 10 <= v <= 15 && c as int == 'a' as int + v - 10
    ||| 10 <= v <= 15 && c as int == 'A' as int + v - 10
}

/// Without a setting, or with one that is no color, a row is gray.
pub proof fn other_settings_are_gray(ws: WorkspaceState)
    ensures
        ws.workspace.custom_color is None ==> accent(ws) == Color::DarkGray,
        ws.workspace.custom_color is Some && ws.workspace.custom_color.unwrap()@.len() != 7
            ==> accent(ws) == Color::DarkGray,
        ws.workspace.custom_color is Some && ws.workspace.custom_color.unwrap()@.len() == 7
            && ws.workspace.custom_color.unwrap()@[0] != '#' ==> accent(ws) == Color::DarkGray,
{
}

/// The spinner turns: each of its ten signs shows for 80 milliseconds, and neighbours
/// differ.
pub proof fn the_spinner_turns(ms: int)
    requires
        0 <= ms,
    ensures
        spinner(ms + 800) == spinner(ms),
        spinner(ms + 80) != spinner(ms),
        ms % 80 < 79 ==> spinner(ms + 1) == spinner(ms),
{
    assert((ms + 800) / 80 == ms / 80 + 10);
    assert((ms + 80) / 80 == ms / 80 + 1);
    let q = ms / 80;
    assert((q + 10) % 10 == q % 10);
    assert((q + 1) % 10 == if q % 10 == 9 {
        0
    } else {
        q % 10 + 1
    });
    if ms % 80 < 79 {
        assert((ms + 1) / 80 == q);
    }
}

// ---------------------------------------------------------------------------
// Overview
// ---------------------------------------------------------------------------

/// The header names the workspace, the word for its state, and after them the agent, the
/// host and the duration, as far as they are known.
pub proof fn the_header_names_what_is_known(
    ws: WorkspaceState,
    agents: AgentTable,
    agent: Seq<char>,
    host: Seq<char>,
    dir: Seq<char>,
    ms: int,
)
    requires
        !ws.loading,
        agent.len() > 0,
        host.len() > 0,
    ensures
        ({
            let t = pane_lines(ws, agents, agent, host, dir, ms)[0];
            let state = ws.state_spec(agents);
            &&& t[0].text == " "@ + ws.workspace.name@ + " "@
            &&& state == AgentState::Working ==> t[1].text == " "@ + "working"@ + " "@
            &&& state == AgentState::NeedsMe ==> t[1].text == " "@ + "waiting"@ + " "@
                && t[1].style.bg == Some(Color::Red)
            &&& state == AgentState::Stale ==> t[1].text == " "@ + "offline"@ + " "@
            &&& state == AgentState::Idle ==> t[1].text == " "@ + "--"@ + " "@
            &&& t[2].text == " "@ + agent + " "@
            &&& t[3].text == " "@ + host + " "@
            &&& ws.screen_insights.duration is Some ==> t[4].text == " "@
                + ws.screen_insights.duration.unwrap()@ + "  "@
            &&& ws.screen_insights.duration is None ==> t.len() == 4
        }),
{
    reveal_strlit("active");
    reveal_strlit("idle");
    reveal_strlit("waiting");
    reveal_strlit("done");
    assert("waiting"@.len() == 7 && "active"@.len() == 6 && "idle"@.len() == 4);
}

/// The directory and the session's topic stand below the header.
pub proof fn directory_and_topic_follow(
    ws: WorkspaceState,
    agents: AgentTable,
    agent: Seq<char>,
    host: Seq<char>,
    dir: Seq<char>,
    ms: int,
)
    requires
        dir.len() > 0,
    ensures
        ({
            let l = pane_lines(ws, agents, agent, host, dir, ms)[1];
            let topic = ws.session is Some && ws.session.unwrap().frontmatter.topic is Some
                && ws.session.unwrap().frontmatter.topic.unwrap()@.len() > 0;
            &&& l[0].text == "  "@ + dir
            &&& topic ==> l.len() == 3 && l[2].text
                == ws.session.unwrap().frontmatter.topic.unwrap()@
            &&& !topic ==> l.len() == 1
        }),
{
    reveal_strlit("");
}

/// The latest request is shown behind its mark.
pub proof fn the_request_is_shown(ws: WorkspaceState)
    ensures
        ws.screen_insights.user_prompt is Some ==> ask_lines(ws)[0][0].text == "  › "@
            && ask_lines(ws)[0][1].text == ws.screen_insights.user_prompt.unwrap()@,
        ws.screen_insights.user_prompt is None ==> ask_lines(ws).len() == 0,
{
}

/// The activity is shown, or without one how long the agent worked; then the tasks, done
/// before total, with the first that is pending.
pub proof fn activity_and_tasks_are_shown(ws: WorkspaceState, ms: int)
    ensures
        ({
            let i = ws.screen_insights;
            let shown = status_lines(ws, ms);
            &&& i.activity is Some ==> shown.len() > 0 && shown[0][0].text == "  "@
                + i.activity.unwrap()@
            &&& i.activity is None && i.duration is Some ==> shown.len() > 0 && shown[0][0].text
                == "  Worked for "@ + i.duration.unwrap()@
            &&& i.tasks_total > 0 ==> task_lines(ws).len() == 1 && task_lines(ws)[0][0].text
                == "  Tasks: "@ + decimal(i.tasks_done as nat) + "/"@ + (decimal(
                i.tasks_total as nat,
            ) + " ✔"@)
            &&& i.tasks_total > 0 && i.pending_task is Some ==> task_lines(ws)[0][1].text
                == "  — "@ + i.pending_task.unwrap()@
            &&& i.tasks_total == 0 ==> task_lines(ws).len() == 0
        }),
{
}

/// The summary in memory tells the trajectory before the session file does.
pub proof fn the_summary_comes_first(ws: WorkspaceState)
    ensures
        ws.summary is Some ==> told_trajectory(ws) == Some(ws.summary.unwrap().trajectory@),
        ws.summary is None && ws.session is Some && ws.session.unwrap().trajectory is Some
            ==> told_trajectory(ws) == Some(ws.session.unwrap().trajectory.unwrap()@),
        ws.summary is None && (ws.session is None || ws.session.unwrap().trajectory is None)
            ==> told_trajectory(ws) is None,
{
}

/// The user's notes are shown line by line, or that there are none.
pub proof fn notes_are_shown(ws: WorkspaceState, k: int)
    ensures
        ws.notes is Some ==> note_lines(ws).len() == lines(ws.notes.unwrap()@).len() + 2,
        ws.notes is Some && 0 <= k < lines(ws.notes.unwrap()@).len() ==> note_lines(ws)[1
            + k][0].text == "  "@ + lines(ws.notes.unwrap()@)[k],
        ws.notes is None ==> note_lines(ws)[1][0].text == "  (no notes yet)"@,
{
}

/// The session's progress is shown point by point.
pub proof fn progress_is_shown(ws: WorkspaceState, k: int)
    requires
        ws.session is Some,
        0 <= k < ws.session.unwrap().bullets@.len(),
    ensures
        progress_lines(ws).len() == ws.session.unwrap().bullets@.len() + 2,
        progress_lines(ws)[0][0].text == "Progress:"@,
        progress_lines(ws)[1 + k][0].text == "  - "@ + ws.session.unwrap().bullets@[k]@,
{
    assert(views(ws.session.unwrap().bullets@)[k] == ws.session.unwrap().bullets@[k]@);
}

/// The next steps are the summary's where it has any, else the session's; finished ones
/// are dim.
pub proof fn next_steps_are_shown(ws: WorkspaceState, k: int)
    ensures
        ({
            let own = ws.summary is Some && ws.summary.unwrap().next_steps@.len() > 0;
            let file = ws.session is Some && ws.session.unwrap().next_steps@.len() > 0;
            let shown = step_lines(ws);
            &&& own && 0 <= k < ws.summary.unwrap().next_steps@.len() ==> shown[1 + k][0].text
                == "  "@ + ws.summary.unwrap().next_steps@[k]@
            &&& !own && file && 0 <= k < ws.session.unwrap().next_steps@.len() ==> shown[1
                + k][0].text == "  "@ + ws.session.unwrap().next_steps@[k]@
            &&& !own && !file ==> shown.len() == 0
        }),
{
    let steps = crate::detail::next_steps(ws);
    if 0 <= k < steps.len() {
        assert(views(steps)[k] == steps[k]@);
    }
}

/// A step with a checked box is dim, any other stands out.
pub proof fn finished_steps_are_dim(t: Seq<char>)
    ensures
        has_text(t, "[x]"@) ==> step_line(t)[0].style.fg == Some(Color::DarkGray),
        !has_text(t, "[x]"@) ==> step_line(t)[0].style.fg == Some(Color::Yellow),
        step_line(t)[0].text == "  "@ + t,
{
}

/// How many lines hold more than blanks.
pub open spec fn written_lines(ls: Seq<Seq<char>>) -> nat {
    ls.filter(|l: Seq<char>| trim(l).len() > 0).len()
}

proof fn lemma_written(ls: Seq<Seq<char>>, n: int)
    requires
        0 <= n <= ls.len(),
    ensures
        crate::detail::non_blank(ls, n) == written_lines(ls.take(n)),
    decreases n,
{
    reveal(Seq::filter);
    if n > 0 {
        lemma_written(ls, n - 1);
        assert(ls.take(n).drop_last() =~= ls.take(n - 1));
        assert(ls.take(n).last() == ls[n - 1]);
    } else {
        assert(ls.take(0).len() == 0);
    }
}

/// The screen is shown line by line when it holds more than two lines of text.
pub proof fn a_screen_with_text_is_shown(ws: WorkspaceState, k: int)
    requires
        ws.screen_preview is Some,
    ensures
        ({
            let ls = lines(ws.screen_preview.unwrap()@);
            &&& written_lines(ls) > 2 ==> screen_lines(ws).len() == ls.len() + 1
            &&& written_lines(ls) > 2 && 0 <= k < ls.len() ==> screen_lines(ws)[1 + k][0].text
                == ""@ + ls[k]
            &&& written_lines(ls) <= 2 ==> screen_lines(ws).len() == 0
        }),
{
    let ls = lines(ws.screen_preview.unwrap()@);
    lemma_written(ls, ls.len() as int);
    assert(ls.take(ls.len() as int) =~= ls);
}

// ---------------------------------------------------------------------------
// Peek
// ---------------------------------------------------------------------------

/// A poll is due once a second has passed since the last one, at once without one, and
/// never while one runs.
pub proof fn a_screen_is_polled_every_second(p: PeekState, now: Moment)
    ensures
        p.polling ==> !p.poll_due(now),
        !p.polling && p.last_poll is None ==> p.poll_due(now),
        !p.polling && p.last_poll is Some ==> (p.poll_due(now) <==> now.nanos
            - p.last_poll.unwrap().nanos >= 1_000_000_000),
{
}

/// A new screen is added below what was there; only the latest 500 lines are kept.
pub proof fn a_screen_is_added_below(p: PeekState, text: Seq<char>, now: Moment, q: PeekState)
    requires
        took_screen(p, text, now, q),
    ensures
        ({
            let all = views(p.screen_buffer@) + lines(text);
            &&& all.len() <= 500 ==> views(q.screen_buffer@) == all
            &&& all.len() > 500 ==> views(q.screen_buffer@) == all.skip(all.len() - 500)
            &&& q.last_poll == Some(now)
            &&& !q.polling
            &&& q.auto_follow == p.auto_follow
            &&& q.surface_ref == p.surface_ref
        }),
{
}

/// New content moves a view that follows to the last line, and leaves any other where it
/// is as far as there are lines.
pub proof fn new_content_moves_a_view_that_follows(offset: u16, n: nat)
    requires
        0 < n <= u16::MAX,
    ensures
        settled_offset(true, offset, n) == n - 1,
        offset < n ==> settled_offset(false, offset, n) == offset,
        offset >= n ==> settled_offset(false, offset, n) == n - 1,
{
}

/// A session log replaces the content; one that could not be read leaves it.
pub proof fn a_log_replaces_the_content(
    p: PeekState,
    turns: Option<&Vec<Turn>>,
    now: Moment,
    q: PeekState,
)
    requires
        took_log(p, turns, now, q),
    ensures
        turns is None ==> q.screen_buffer == p.screen_buffer && q.scroll_offset == p.scroll_offset,
        turns is Some ==> views(q.screen_buffer@) == log_lines(
            turns.unwrap()@,
            turns.unwrap()@.len() as int,
        ),
        q.last_poll == Some(now),
        !q.polling,
        q.auto_follow == p.auto_follow,
{
}

/// Turns follow each other in order; each has a header with time and role, its content
/// and a blank line.
pub proof fn turns_follow_in_order(turns: Seq<Turn>, n: int, k: int)
    requires
        0 <= k < n <= turns.len(),
    ensures
        ({
            let at = log_lines(turns, k).len() as int;
            let all = log_lines(turns, n);
            let t = turns[k];
            let content = lines(shown_content(t));
            &&& at + content.len() + 2 <= all.len()
            &&& all[at] == "## "@ + t.time@ + " — "@ + t.role@
            &&& forall|i: int| 0 <= i < content.len() ==> all[at + 1 + i] == #[trigger] content[i]
            &&& all[at + 1 + content.len()].len() == 0
        }),
    decreases n,
{
    let at = log_lines(turns, k).len() as int;
    let all = log_lines(turns, n);
    let content = lines(shown_content(turns[k]));
    if k < n - 1 {
        turns_follow_in_order(turns, n - 1, k);
        let before = log_lines(turns, n - 1);
        assert(all[at] == before[at]);
        assert(all[at + 1 + content.len()] == before[at + 1 + content.len()]);
        assert forall|i: int| 0 <= i < content.len() implies all[at + 1 + i]
            == #[trigger] content[i] by {
            assert(before[at + 1 + i] == content[i]);
        }
    } else {
        let own = turn_lines(turns[k]);
        assert(own[0] == "## "@ + turns[k].time@ + " — "@ + turns[k].role@);
        assert forall|i: int| 0 <= i < content.len() implies all[at + 1 + i]
            == #[trigger] content[i] by {
            assert(own[1 + i] == content[i]);
        }
        assert(own[1 + content.len() as int].len() == 0);
    }
}

/// Whoever is named `user`, in any case, is the human; an agent is not.
pub proof fn the_human_is_known_by_name(role: Seq<char>)
    ensures
        ascii_lowered(role) == "user"@ ==> is_human(role),
        ascii_lowered(role) == "boyan"@ ==> is_human(role),
        ascii_lowered(role) != "user"@ && ascii_lowered(role) != "boyan"@ ==> !is_human(role),
{
}

/// An agent's turn of more than a hundred words is cut behind the hundredth.
pub proof fn a_long_turn_is_cut_behind_its_words(t: Turn)
    requires
        !is_human(t.role@),
        words(t.content@).len() > 100,
    ensures
        shown_content(t) == join(words(t.content@).take(100), " "@) + "…"@,
{
}

proof fn lemma_parts<A>(
    h: Seq<A>,
    p: Seq<A>,
    q: Seq<A>,
    r: Seq<A>,
    s: Seq<A>,
    t: Seq<A>,
    u: Seq<A>,
)
    ensures
        ({
            let all = h + p + q + r + s + t + u;
            let a = h.len() as int;
            let b = a + p.len();
            let c = b + q.len();
            let d = c + r.len();
            let e = d + s.len();
            let f = e + t.len();
            &&& all.subrange(a, b) == p
            &&& all.subrange(b, c) == q
            &&& all.subrange(c, d) == r
            &&& all.subrange(d, e) == s
            &&& all.subrange(e, f) == t
            &&& all.skip(f) == u
            &&& all.len() == f + u.len()
        }),
{
    let all = h + p + q + r + s + t + u;
    let a = h.len() as int;
    let b = a + p.len();
    let c = b + q.len();
    let d = c + r.len();
    let e = d + s.len();
    let f = e + t.len();
    assert(all.subrange(a, b) =~= p);
    assert(all.subrange(b, c) =~= q);
    assert(all.subrange(c, d) =~= r);
    assert(all.subrange(d, e) =~= s);
    assert(all.subrange(e, f) =~= t);
    assert(all.skip(f) =~= u);
}

/// The overview goes from the header over the request, the status, the notes and the
/// progress to the next steps and the screen.
pub proof fn the_overview_keeps_its_order(
    ws: WorkspaceState,
    agents: AgentTable,
    agent: Seq<char>,
    host: Seq<char>,
    dir: Seq<char>,
    ms: int,
)
    ensures
        ({
            let shown = pane_lines(ws, agents, agent, host, dir, ms);
            let a = if dir.len() > 0 || crate::detail::topic_of(ws).len() > 0 {
                3int
            } else {
                2int
            };
            let b = a + ask_lines(ws).len();
            let c = b + status_lines(ws, ms).len();
            let d = c + note_lines(ws).len();
            let e = d + progress_lines(ws).len();
            let f = e + step_lines(ws).len();
            &&& shown.subrange(a, b) == ask_lines(ws)
            &&& shown.subrange(b, c) == status_lines(ws, ms)
            &&& shown.subrange(c, d) == note_lines(ws)
            &&& shown.subrange(d, e) == progress_lines(ws)
            &&& shown.subrange(e, f) == step_lines(ws)
            &&& shown.skip(f) == screen_lines(ws)
            &&& shown.len() == f + screen_lines(ws).len()
        }),
{
    let head = crate::detail::header_lines(ws, agents, agent, host, dir, ms) + seq![
        crate::detail::gap(),
    ];
    assert(head.len() == (if dir.len() > 0 || crate::detail::topic_of(ws).len() > 0 {
        3int
    } else {
        2int
    }));
    lemma_parts(
        head,
        ask_lines(ws),
        status_lines(ws, ms),
        note_lines(ws),
        progress_lines(ws),
        step_lines(ws),
        screen_lines(ws),
    );
}

/// The trajectory is shown behind activity and tasks; while it is being summarized, and
/// none is known, that is said.
pub proof fn the_trajectory_is_shown(ws: WorkspaceState, ms: int)
    requires
        ws.screen_insights.activity is None,
        ws.screen_insights.duration is None,
        ws.screen_insights.tasks_total == 0,
    ensures
        told_trajectory(ws) is Some ==> status_lines(ws, ms).len() == 2 && status_lines(
            ws,
            ms,
        )[0][0].text == "  "@ + told_trajectory(ws).unwrap(),
        told_trajectory(ws) is None && ws.summarizing ==> status_lines(ws, ms).len() == 2
            && status_lines(ws, ms)[0][2].text == "summarizing via codex…"@,
        told_trajectory(ws) is None && !ws.summarizing ==> status_lines(ws, ms).len() == 0,
{
}

/// Statuses have their own badges: green for what is active, yellow for what is idle, red
/// for what waits, gray for what is done; any other word is gray without a background.
pub proof fn statuses_have_their_own_badges(status: Seq<char>)
    ensures
        badge_style("active"@).bg == Some(Color::Green),
        badge_style("idle"@).bg == Some(Color::Yellow),
        badge_style("waiting"@).bg == Some(Color::Red),
        badge_style("done"@).bg == Some(Color::DarkGray),
        badge_style("active"@).fg == Some(Color::Black),
        badge_style("idle"@).fg == Some(Color::Black),
        badge_style("waiting"@).fg == Some(Color::White),
        badge_style("done"@).fg == Some(Color::White),
        status != "active"@ && status != "idle"@ && status != "waiting"@ && status != "done"@
            ==> badge_style(status).bg is None && badge_style(status).fg == Some(Color::DarkGray),
{
    reveal_strlit("active");
    reveal_strlit("idle");
    reveal_strlit("waiting");
    reveal_strlit("done");
    assert("idle"@[0] == 'i' && "done"@[0] == 'd');
    assert("active"@.len() == 6 && "waiting"@.len() == 7);
}

/// Without a point, and without a session, there is no progress to show.
pub proof fn no_progress_takes_no_line(ws: WorkspaceState)
    ensures
        ws.session is None ==> progress_lines(ws).len() == 0,
        ws.session is Some && ws.session.unwrap().bullets@.len() == 0 ==> progress_lines(ws).len()
            == 0,
{
}

/// Agent, host and directory of the overview are those of the workspace.
pub proof fn the_overview_describes_its_workspace(
    ws: WorkspaceState,
    agents: AgentTable,
    agent: Seq<char>,
    host: Seq<char>,
    dir: Seq<char>,
    order: Seq<int>,
    devices: Seq<Seq<char>>,
)
    requires
        describes(ws, agents, agent, host, dir),
        is_active_order(ws.remote_surfaces.entries@, order),
        is_device_list(ws.remote_surfaces.entries@, devices),
    ensures
        agent == ws.agent_name_spec(agents, order),
        host == ws.host_name_spec(devices),
        dir == ws.working_dir_spec(agents, order),
{
    let s = ws.remote_surfaces.entries@;
    let a = choose|a: Seq<int>| #[trigger]
        is_active_order(s, a) && agent == ws.agent_name_spec(agents, a);
    active_order_is_determined(s, a, order);
    let b = choose|b: Seq<int>| #[trigger]
        is_active_order(s, b) && dir == ws.working_dir_spec(agents, b);
    active_order_is_determined(s, b, order);
    let c = choose|c: Seq<Seq<char>>| #[trigger]
        is_device_list(s, c) && host == ws.host_name_spec(c);
    assert forall|x: Seq<char>| c.contains(x) <==> devices.contains(x) by {
        assert(c.contains(x) <==> runs_on(s, x));
        assert(devices.contains(x) <==> runs_on(s, x));
    }
    sorted_lists_are_determined(c, devices);
}

} // verus!
