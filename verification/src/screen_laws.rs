//! What is read off a screen, said of its lines.
use crate::agents::{reveals, AgentTable};
use crate::numeral::{is_digit, u16_numeral};
use crate::search::{find, has_text, join, leads, rfind, starts_with, strip_leading};
use crate::screen::{
    activity_text, area_scan, completed, completed_sum, conversation_content, directory_of,
    duration_of, duration_text, input_area_start, input_content, input_prompt, last_activity,
    lowercase, marked, pending_task, plus_word, prompt_scan, reads, stop_at, user_prompt,
    working_dir, ScreenInsights,
};
use crate::text::{lines, opt_view, trim, trim_all, words};
use crate::text_laws::{
    a_text_is_its_trimmed_form_between_blanks, all_blank, joining_separates_neighbours,
    stripping_takes_every_leading_mark, trimming_takes_the_outer_blanks,
};
use vstd::prelude::*;

verus! {

/// The text begins with `c`.
pub open spec fn begins(t: Seq<char>, c: char) -> bool {
    t.len() > 0 && t[0] == c
}

// ---------------------------------------------------------------------------
// The input area
// ---------------------------------------------------------------------------

/// A line of `─` and nothing else.
pub open spec fn is_rule(t: Seq<char>) -> bool {
    t.len() > 0 && forall|k: int| 0 <= k < t.len() ==> #[trigger] t[k] == '─'
}

/// A line that may stand between the rules of the input area.
pub open spec fn is_filler(t: Seq<char>) -> bool {
    t.len() == 0 || t[0] == '⏵' || t[0] == '❯'
}

/// The input area begins at line `a`: at a rule from which only rules and fillers reach
/// down to the lowest rule, and no rule further up does. Without a rule there is none.
pub open spec fn area_begins(ts: Seq<Seq<char>>, a: int) -> bool {
    ||| a == ts.len() && forall|k: int| 0 <= k < ts.len() ==> !is_rule(#[trigger] ts[k])
    ||| {
        &&& 0 <= a < ts.len()
        &&& is_rule(ts[a])
        &&& exists|b: int| a <= b < ts.len() && #[trigger] reaches_down(ts, a, b)
        &&& forall|c: int|
            0 <= c < a && is_rule(#[trigger] ts[c]) ==> exists|k: int|
                c < k < a && !is_rule(#[trigger] ts[k]) && !is_filler(ts[k])
    }
}

/// The lowest rule is line `b`, and from line `a` to it there are only rules and fillers.
pub open spec fn reaches_down(ts: Seq<Seq<char>>, a: int, b: int) -> bool {
    &&& is_rule(ts[b])
    &&& forall|k: int| b < k < ts.len() ==> !is_rule(#[trigger] ts[k])
    &&& forall|k: int| a <= k <= b ==> is_rule(#[trigger] ts[k]) || is_filler(ts[k])
}

proof fn lemma_area_above(ts: Seq<Seq<char>>, i: int, start: int)
    requires
        0 <= i <= start < ts.len(),
        is_rule(ts[start]),
        forall|k: int| i <= k < start ==> is_filler(#[trigger] ts[k]) && !is_rule(ts[k]),
    ensures
        ({
            let r = area_scan(ts, i, start, true);
            &&& 0 <= r <= start
            &&& is_rule(ts[r])
            &&& forall|k: int| r <= k <= start ==> is_rule(#[trigger] ts[k]) || is_filler(ts[k])
            &&& forall|c: int|
                0 <= c < r && is_rule(#[trigger] ts[c]) ==> exists|k: int|
                    c < k < r && !is_rule(#[trigger] ts[k]) && !is_filler(ts[k])
        }),
    decreases i,
{
    if i > 0 {
        let t = ts[i - 1];
        if is_rule(t) {
            assert(crate::screen::is_divider(t));
            lemma_area_above(ts, i - 1, i - 1);
        } else {
            assert(!crate::screen::is_divider(t));
            if is_filler(t) {
                lemma_area_above(ts, i - 1, start);
            } else {
                assert forall|c: int| 0 <= c < start && is_rule(#[trigger] ts[c]) implies exists|
                    k: int,
                | c < k < start && !is_rule(#[trigger] ts[k]) && !is_filler(ts[k]) by {
                    assert(c < i - 1);
                    assert(!is_rule(ts[i - 1]) && !is_filler(ts[i - 1]));
                }
            }
        }
    }
}

proof fn lemma_area_below(ts: Seq<Seq<char>>, i: int)
    requires
        0 <= i <= ts.len(),
        forall|k: int| i <= k < ts.len() ==> !is_rule(#[trigger] ts[k]),
    ensures
        area_begins(ts, area_scan(ts, i, ts.len() as int, false)),
    decreases i,
{
    if i > 0 {
        let t = ts[i - 1];
        if is_rule(t) {
            assert(crate::screen::is_divider(t));
            lemma_area_above(ts, i - 1, i - 1);
            assert(reaches_down(ts, area_scan(ts, i - 1, i - 1, true), i - 1));
        } else {
            assert(!crate::screen::is_divider(t));
            lemma_area_below(ts, i - 1);
        }
    }
}

/// The input area is the block of rules and fillers that ends at the lowest rule, and
/// there is only one place where it begins.
pub proof fn the_input_area_is_the_lowest_block(ts: Seq<Seq<char>>, a: int)
    ensures
        area_begins(ts, input_area_start(ts)),
        area_begins(ts, a) ==> a == input_area_start(ts),
{
    lemma_area_below(ts, ts.len() as int);
    let s = input_area_start(ts);
    if area_begins(ts, a) && a != s {
        if a == ts.len() {
            assert(!is_rule(ts[s]));
        } else if s == ts.len() {
            assert(!is_rule(ts[a]));
        } else {
            let b = choose|b: int| a <= b < ts.len() && #[trigger] reaches_down(ts, a, b);
            let c = choose|b: int| s <= b < ts.len() && #[trigger] reaches_down(ts, s, b);
            if b < c {
                assert(!is_rule(ts[c]));
            }
            if c < b {
                assert(!is_rule(ts[b]));
            }
            if a < s {
                assert(is_rule(ts[a]));
                let k = choose|k: int| a < k < s && !is_rule(#[trigger] ts[k]) && !is_filler(ts[k]);
                assert(is_rule(ts[k]) || is_filler(ts[k]));
            } else {
                assert(is_rule(ts[s]));
                let k = choose|k: int| s < k < a && !is_rule(#[trigger] ts[k]) && !is_filler(ts[k]);
                assert(is_rule(ts[k]) || is_filler(ts[k]));
            }
        }
    }
}

// ---------------------------------------------------------------------------
// Prompts
// ---------------------------------------------------------------------------

/// A prompt mark leads the line.
pub open spec fn is_prompt_line(t: Seq<char>) -> bool {
    begins(t, '❯') || begins(t, '›')
}

/// The text is a user's: neither nothing nor one of the program's hints.
pub open spec fn is_users(c: Seq<char>) -> bool {
    c.len() > 0 && !has_text(c, "Press up to edit"@) && !has_text(c, "Enter to select"@)
}

/// What a prompt asks is what stands behind its marks, without the outer blanks, in the
/// input area as in the conversation.
pub proof fn a_prompt_asks_what_follows_its_marks(mark: char, n: nat, rest: Seq<char>)
    requires
        mark == '❯' || mark == '›',
        rest.len() > 0 ==> rest[0] != '❯' && rest[0] != '›',
    ensures
        input_content(Seq::new(n, |i: int| mark) + rest) == trim(rest),
        conversation_content(Seq::new(n, |i: int| mark) + rest) == trim(rest),
{
    let t = Seq::new(n, |i: int| mark) + rest;
    stripping_takes_every_leading_mark(mark, n, rest);
    assert(strip_leading(rest, '❯') == rest);
    assert(strip_leading(rest, '›') == rest);
    if n > 0 {
        assert(t[0] == mark);
    } else {
        assert(t =~= rest);
    }
    if mark == '❯' {
        assert(strip_leading(t, '›') == t);
    } else {
        assert(strip_leading(t, '❯') == t);
    }
}

proof fn lemma_input_prompt(ts: Seq<Seq<char>>, from: int, n: int, k: int)
    requires
        0 <= from,
        n <= ts.len(),
    ensures
        from <= k < n && is_prompt_line(ts[k]) && is_users(input_content(ts[k])) && (forall|j: int|
            k < j < n && is_prompt_line(#[trigger] ts[j]) ==> !is_users(input_content(ts[j])))
            ==> input_prompt(ts, from, n) == Some(input_content(ts[k])),
        (forall|j: int|
            from <= j < n && is_prompt_line(#[trigger] ts[j]) ==> !is_users(input_content(ts[j])))
            ==> input_prompt(ts, from, n) is None,
    decreases n - from,
{
    if n > from {
        lemma_input_prompt(ts, from, n - 1, k);
    }
}

/// The prompt in the input area is reported before any other, and of several there the
/// lowest that asks something.
pub proof fn the_lowest_prompt_of_the_input_area_is_reported(
    screen: Seq<char>,
    agents: AgentTable,
    r: ScreenInsights,
    a: int,
    k: int,
)
    requires
        reads(screen, agents, r),
        area_begins(trim_all(lines(screen)), a),
        a <= k < lines(screen).len(),
        is_prompt_line(trim(lines(screen)[k])),
        is_users(input_content(trim(lines(screen)[k]))),
        forall|j: int|
            k < j < lines(screen).len() && is_prompt_line(trim(#[trigger] lines(screen)[j]))
                ==> !is_users(input_content(trim(lines(screen)[j]))),
    ensures
        opt_view(r.user_prompt) == Some(input_content(trim(lines(screen)[k]))),
{
    let ts = trim_all(lines(screen));
    the_input_area_is_the_lowest_block(ts, a);
    assert forall|j: int| k < j < ts.len() && is_prompt_line(#[trigger] ts[j]) implies !is_users(
        input_content(ts[j]),
    ) by {
        assert(ts[j] == trim(lines(screen)[j]));
    }
    lemma_input_prompt(ts, a, ts.len() as int, k);
}

/// Line `j` of the conversation asks something.
pub open spec fn asks_at(ls: Seq<Seq<char>>, j: int) -> bool {
    is_prompt_line(trim(ls[j])) && is_users(conversation_content(trim(ls[j])))
}

/// A line that continues the prompt above it: indented, not blank, no rule, no prompt.
pub open spec fn goes_on(l: Seq<char>) -> bool {
    &&& trim(l).len() > 0
    &&& !is_prompt_line(trim(l))
    &&& trim(l)[0] != '─'
    &&& l.len() >= 2 && l[0] == ' ' && l[1] == ' '
}

/// The lines from `j` on that are read as one prompt end before line `m`, and not
/// because another prompt begins there.
pub open spec fn is_whole(ls: Seq<Seq<char>>, j: int, m: int, limit: int) -> bool {
    &&& 0 <= j < m <= limit
    &&& asks_at(ls, j)
    &&& forall|k: int| j < k < m ==> goes_on(#[trigger] ls[k])
    &&& m < limit ==> !goes_on(ls[m]) && !is_prompt_line(trim(ls[m]))
}

/// What a prompt of several lines asks, line by line.
pub open spec fn parts(ls: Seq<Seq<char>>, j: int, m: int) -> Seq<Seq<char>> {
    Seq::new(
        (m - j) as nat,
        |k: int|
            if k == 0 {
                conversation_content(trim(ls[j]))
            } else {
                trim(ls[j + k])
            },
    )
}

/// The prompt that is still being read after `n` lines began at line `j`.
spec fn is_open(ls: Seq<Seq<char>>, j: int, n: int) -> bool {
    &&& 0 <= j < n
    &&& asks_at(ls, j)
    &&& forall|k: int| j < k < n ==> goes_on(#[trigger] ls[k])
}

/// The prompt from line `j` ended at line `m`.
spec fn is_done(ls: Seq<Seq<char>>, j: int, m: int) -> bool {
    is_open(ls, j, m) && !goes_on(ls[m]) && !is_prompt_line(trim(ls[m]))
}

proof fn lemma_goes_on(l: Seq<char>)
    ensures
        goes_on(l) == (trim(l).len() > 0 && !is_prompt_line(trim(l)) && !leads(trim(l), '─')
            && starts_with(l, "  "@)),
{
    reveal_strlit("  ");
    if l.len() >= 2 {
        assert(l.subrange(0, 2)[0] == l[0]);
        assert(l.subrange(0, 2)[1] == l[1]);
        if l[0] == ' ' && l[1] == ' ' {
            assert(l.subrange(0, 2) =~= "  "@);
        }
    }
}

#[verifier::rlimit(40)]
proof fn lemma_scan(ls: Seq<Seq<char>>, n: int) -> (w: (int, int, int))
    requires
        0 <= n <= ls.len(),
    ensures
        ({
            let p = prompt_scan(ls, n);
            &&& p.reading ==> is_open(ls, w.0, n) && p.current == parts(ls, w.0, n)
            &&& !p.reading ==> forall|j: int| !#[trigger] is_open(ls, j, n)
            &&& p.best is Some ==> is_done(ls, w.1, w.2) && w.2 < n && p.best == Some(
                parts(ls, w.1, w.2),
            ) && forall|j: int, m: int|
                w.1 < j && m < n ==> !#[trigger] is_done(ls, j, m)
            &&& p.best is None ==> forall|j: int, m: int| m < n ==> !#[trigger] is_done(ls, j, m)
        }),
    decreases n,
{
    if n == 0 {
        (0, 0, 0)
    } else {
        let w = lemma_scan(ls, n - 1);
        let before = prompt_scan(ls, n - 1);
        let p = prompt_scan(ls, n);
        let l = ls[n - 1];
        let t = trim(l);
        lemma_goes_on(l);
        assert forall|j: int| #[trigger] is_open(ls, j, n) && j < n - 1 implies is_open(
            ls,
            j,
            n - 1,
        ) && goes_on(l) by {}
        if is_prompt_line(t) {
            assert forall|j: int| !#[trigger] is_done(ls, j, n - 1) by {}
            if is_users(conversation_content(t)) {
                assert(is_open(ls, n - 1, n));
                assert(parts(ls, n - 1, n) =~= seq![conversation_content(t)]);
                (n - 1, w.1, w.2)
            } else {
                assert forall|j: int| !#[trigger] is_open(ls, j, n) by {}
                (0, w.1, w.2)
            }
        } else if !before.reading {
            assert forall|j: int| !#[trigger] is_open(ls, j, n) by {
                assert(!is_open(ls, j, n - 1));
            }
            assert forall|j: int| !#[trigger] is_done(ls, j, n - 1) by {
                assert(!is_open(ls, j, n - 1));
            }
            w
        } else if goes_on(l) {
            assert(is_open(ls, w.0, n));
            assert(parts(ls, w.0, n) =~= parts(ls, w.0, n - 1).push(t));
            w
        } else {
            assert(is_done(ls, w.0, n - 1));
            assert forall|j: int| !#[trigger] is_open(ls, j, n) by {}
            assert forall|j: int, m: int| w.0 < j && m < n implies !#[trigger] is_done(ls, j, m) by {
                if is_done(ls, j, m) {
                    if j < n - 1 {
                        assert(goes_on(ls[j]));
                    }
                }
            }
            (0, w.0, n - 1)
        }
    }
}

/// Where the conversation that counts ends: at the last line above the input area that
/// tells of activity, or at the input area.
pub open spec fn conversation_ends(ts: Seq<Seq<char>>, a: int, limit: int) -> bool {
    ||| limit == a && forall|k: int| 0 <= k < a ==> !tells_activity(#[trigger] ts[k])
    ||| {
        &&& 0 <= limit < a
        &&& tells_activity(ts[limit])
        &&& forall|k: int| limit < k < a ==> !tells_activity(#[trigger] ts[k])
    }
}

/// Neither a letter, a digit, a blank, a line, a bullet nor a prompt mark.
pub open spec fn may_spin(c: char) -> bool {
    &&& !('a' <= c <= 'z') && !('A' <= c <= 'Z') && !('0' <= c <= '9')
    &&& c != ' ' && c != '\t' && c != '\n' && c != '\u{c}' && c != '\r'
    &&& c != '─' && c != '│' && c != '└' && c != '├' && c != '⎿'
    &&& c != '⏺' && c != '●' && c != '▸' && c != '▹' && c != '►' && c != '▶'
    &&& c != '⏵' && c != '›' && c != '❯'
}

/// A spinner leads the line, and it is no marker of folded output.
pub open spec fn is_spinning(t: Seq<char>) -> bool {
    &&& t.len() > 0
    &&& may_spin(t[0])
    &&& !has_text(t, "ctrl+"@)
    &&& !has_text(t, "lines ("@)
}

/// `✻ Puzzling… (2m 28s)` or `✻ Cooked for 11m 29s`.
pub open spec fn tells_activity(t: Seq<char>) -> bool {
    is_spinning(t) && t.contains('s') && (t.contains('…') && t.contains('(') || has_text(t, " for "@))
}

proof fn lemma_last_activity(ts: Seq<Seq<char>>, a: int, n: int, limit: int)
    requires
        0 <= n <= a <= ts.len(),
        conversation_ends(ts, a, limit),
        limit < a ==> limit < n,
    ensures
        limit == a ==> last_activity(ts, n) is None,
        limit < a ==> last_activity(ts, n) == Some(limit),
    decreases n,
{
    if n > 0 {
        let t = ts[n - 1];
        assert(crate::screen::marks_activity(t) == tells_activity(t));
        if n - 1 != limit {
            lemma_last_activity(ts, a, n - 1, limit);
        }
    }
}

/// Where nothing is asked in the input area, the last whole prompt of the conversation
/// above the activity is reported, with all of its lines: no whole prompt stands between
/// it and the end. A later prompt that only shows a hint does not take its place.
pub proof fn the_last_whole_prompt_is_reported(
    screen: Seq<char>,
    agents: AgentTable,
    r: ScreenInsights,
    a: int,
    limit: int,
    j: int,
    m: int,
)
    requires
        reads(screen, agents, r),
        area_begins(trim_all(lines(screen)), a),
        conversation_ends(trim_all(lines(screen)), a, limit),
        forall|k: int|
            a <= k < lines(screen).len() && is_prompt_line(trim(#[trigger] lines(screen)[k]))
                ==> !is_users(input_content(trim(lines(screen)[k]))),
        is_whole(lines(screen), j, m, limit),
        forall|i: int, e: int| j < i ==> !#[trigger] is_whole(lines(screen), i, e, limit),
    ensures
        opt_view(r.user_prompt) == Some(join(parts(lines(screen), j, m), " "@)),
{
    let ls = lines(screen);
    let p = prompt_scan(ls, limit);
    lemma_conversation(screen, agents, r, a, limit);
    let w = lemma_scan(ls, limit);
    if m == limit {
        assert(is_open(ls, j, limit));
        assert(p.reading);
        assert(is_whole(ls, w.0, limit, limit));
        if w.0 < j {
            assert(goes_on(ls[j]));
        }
        assert(w.0 == j);
    } else {
        assert(is_done(ls, j, m));
        if p.reading {
            assert(is_whole(ls, w.0, limit, limit));
            if w.0 < j {
                assert(goes_on(ls[j]));
            }
            if w.0 == j {
                assert(goes_on(ls[m]));
            }
        }
        assert(p.best is Some);
        assert(is_whole(ls, w.1, w.2, limit));
        if w.1 < j {
            assert(!is_done(ls, j, m));
        }
        assert(w.1 == j);
        if w.2 < m {
            assert(goes_on(ls[w.2]));
        }
        if m < w.2 {
            assert(goes_on(ls[m]));
        }
    }
}

/// Where nothing is asked in the input area, the report begins with what the lowest
/// prompt above the activity asks, and says nothing else if no line continues it.
pub proof fn the_report_begins_with_the_lowest_prompt(
    screen: Seq<char>,
    agents: AgentTable,
    r: ScreenInsights,
    a: int,
    limit: int,
    j: int,
)
    requires
        reads(screen, agents, r),
        area_begins(trim_all(lines(screen)), a),
        conversation_ends(trim_all(lines(screen)), a, limit),
        forall|k: int|
            a <= k < lines(screen).len() && is_prompt_line(trim(#[trigger] lines(screen)[k]))
                ==> !is_users(input_content(trim(lines(screen)[k]))),
        0 <= j < limit,
        asks_at(lines(screen), j),
        forall|k: int| j < k < limit ==> !is_prompt_line(trim(#[trigger] lines(screen)[k])),
    ensures
        r.user_prompt is Some,
        conversation_content(trim(lines(screen)[j])).is_prefix_of(r.user_prompt.unwrap()@),
        (j + 1 < limit ==> !goes_on(lines(screen)[j + 1])) ==> r.user_prompt.unwrap()@
            == conversation_content(trim(lines(screen)[j])),
{
    let ls = lines(screen);
    lemma_conversation(screen, agents, r, a, limit);
    let m = end_of_prompt(ls, j + 1, limit);
    lemma_end_of_prompt(ls, j + 1, limit);
    assert(is_whole(ls, j, m, limit));
    assert forall|i: int, e: int| j < i implies !#[trigger] is_whole(ls, i, e, limit) by {
        if is_whole(ls, i, e, limit) {
            assert(is_prompt_line(trim(ls[i])));
        }
    }
    the_last_whole_prompt_is_reported(screen, agents, r, a, limit, j, m);
    let all = parts(ls, j, m);
    let first = seq![conversation_content(trim(ls[j]))];
    let rest = all.skip(1);
    assert(all =~= first + rest);
    joining_separates_neighbours(first, rest, " "@);
    if rest.len() == 0 {
        assert(all =~= first);
    }
    let c = conversation_content(trim(ls[j]));
    assert(c =~= r.user_prompt.unwrap()@.subrange(0, c.len() as int));
}

spec fn end_of_prompt(ls: Seq<Seq<char>>, k: int, limit: int) -> int
    decreases limit - k,
{
    if k < limit && goes_on(ls[k]) {
        end_of_prompt(ls, k + 1, limit)
    } else {
        k
    }
}

proof fn lemma_end_of_prompt(ls: Seq<Seq<char>>, k: int, limit: int)
    requires
        k <= limit,
    ensures
        k <= end_of_prompt(ls, k, limit) <= limit,
        forall|i: int| k <= i < end_of_prompt(ls, k, limit) ==> goes_on(#[trigger] ls[i]),
        end_of_prompt(ls, k, limit) < limit ==> !goes_on(ls[end_of_prompt(ls, k, limit)]),
    decreases limit - k,
{
    if k < limit && goes_on(ls[k]) {
        lemma_end_of_prompt(ls, k + 1, limit);
    }
}

/// A prompt is reported only where one was asked: with nothing asked in the input area
/// and no whole prompt above the activity, there is none.
pub proof fn without_a_prompt_none_is_reported(
    screen: Seq<char>,
    agents: AgentTable,
    r: ScreenInsights,
    a: int,
    limit: int,
)
    requires
        reads(screen, agents, r),
        area_begins(trim_all(lines(screen)), a),
        conversation_ends(trim_all(lines(screen)), a, limit),
        forall|k: int|
            a <= k < lines(screen).len() && is_prompt_line(trim(#[trigger] lines(screen)[k]))
                ==> !is_users(input_content(trim(lines(screen)[k]))),
        forall|i: int, e: int| !#[trigger] is_whole(lines(screen), i, e, limit),
    ensures
        r.user_prompt is None,
{
    let ls = lines(screen);
    let p = prompt_scan(ls, limit);
    lemma_conversation(screen, agents, r, a, limit);
    let w = lemma_scan(ls, limit);
    if p.reading {
        assert(is_whole(ls, w.0, limit, limit));
    }
    if p.best is Some {
        assert(is_whole(ls, w.1, w.2, limit));
    }
}

proof fn lemma_conversation(
    screen: Seq<char>,
    agents: AgentTable,
    r: ScreenInsights,
    a: int,
    limit: int,
)
    requires
        reads(screen, agents, r),
        area_begins(trim_all(lines(screen)), a),
        conversation_ends(trim_all(lines(screen)), a, limit),
        forall|k: int|
            a <= k < lines(screen).len() && is_prompt_line(trim(#[trigger] lines(screen)[k]))
                ==> !is_users(input_content(trim(lines(screen)[k]))),
    ensures
        opt_view(r.user_prompt) == crate::screen::conversation_prompt(lines(screen), limit),
        0 <= limit <= lines(screen).len(),
{
    let ls = lines(screen);
    let ts = trim_all(ls);
    the_input_area_is_the_lowest_block(ts, a);
    lemma_last_activity(ts, a, a, limit);
    assert forall|k: int| a <= k < ts.len() && is_prompt_line(#[trigger] ts[k]) implies !is_users(
        input_content(ts[k]),
    ) by {
        assert(ts[k] == trim(ls[k]));
    }
    lemma_input_prompt(ts, a, ts.len() as int, 0);
}

// ---------------------------------------------------------------------------
// Activity and duration
// ---------------------------------------------------------------------------

/// The line says what the agent does: at work, done after some time, or at work for a
/// time in brackets.
pub open spec fn is_activity(t: Seq<char>) -> bool {
    &&& is_spinning(t)
    &&& t.contains('s')
    &&& {
        ||| t.contains('…') && t.contains('(')
        ||| has_text(t, " for "@) && !t.contains('…')
        ||| exists|i: int, j: int|
            #![trigger t[i], t[j]]
            0 <= i < j < t.len() && t[i] == '(' && '0' <= t[j] <= '9'
    }
}

proof fn lemma_is_activity(t: Seq<char>)
    ensures
        crate::screen::states_activity(t) == is_activity(t),
{
    if crate::screen::is_timed(t) {
        let (i, j) = choose|i: int, j: int|
            #![trigger t[i], t[j]]
            0 <= i <= j < t.len() && t[i] == '(' && is_digit(t[j]);
        assert(i != j);
        assert(0 <= i < j < t.len() && t[i] == '(' && '0' <= t[j] <= '9');
    }
    if t.contains('s') && exists|i: int, j: int|
        #![trigger t[i], t[j]]
        0 <= i < j < t.len() && t[i] == '(' && '0' <= t[j] <= '9' {
        let (i, j) = choose|i: int, j: int|
            #![trigger t[i], t[j]]
            0 <= i < j < t.len() && t[i] == '(' && '0' <= t[j] <= '9';
        assert(is_digit(t[j]));
    }
}

proof fn lemma_activity_text(ts: Seq<Seq<char>>, n: int, k: int)
    requires
        n <= ts.len(),
    ensures
        0 <= k < n && is_activity(ts[k]) && (forall|j: int|
            k < j < n ==> !is_activity(#[trigger] ts[j])) ==> activity_text(ts, n) == Some(ts[k]),
        (forall|j: int| 0 <= j < n ==> !is_activity(#[trigger] ts[j])) ==> activity_text(ts, n)
            is None,
    decreases n,
{
    if n > 0 {
        lemma_is_activity(ts[n - 1]);
        lemma_activity_text(ts, n - 1, k);
    }
}

/// The activity is the lowest line that says what the agent does, and there is none
/// without such a line.
pub proof fn the_lowest_activity_is_reported(
    screen: Seq<char>,
    agents: AgentTable,
    r: ScreenInsights,
    k: int,
)
    requires
        reads(screen, agents, r),
    ensures
        0 <= k < lines(screen).len() && is_activity(trim(lines(screen)[k])) && (forall|j: int|
            k < j < lines(screen).len() ==> !is_activity(trim(#[trigger] lines(screen)[j])))
            ==> opt_view(r.activity) == Some(trim(lines(screen)[k])),
        (forall|j: int|
            0 <= j < lines(screen).len() ==> !is_activity(trim(#[trigger] lines(screen)[j])))
            ==> r.activity is None,
{
    let ls = lines(screen);
    let ts = trim_all(ls);
    assert(forall|j: int| 0 <= j < ts.len() ==> (#[trigger] ts[j]) == trim(ls[j]));
    lemma_activity_text(ts, ts.len() as int, k);
}

/// The line may tell how long the agent worked: an activity, or a rule that says so.
pub open spec fn may_tell_time(t: Seq<char>) -> bool {
    is_activity(t) || begins(t, '─') && has_text(t, "Worked for "@)
}

proof fn lemma_duration_text(ts: Seq<Seq<char>>, n: int, k: int)
    requires
        n <= ts.len(),
    ensures
        0 <= k < n && may_tell_time(ts[k]) && duration_of(ts[k]) is Some && (forall|j: int|
            k < j < n && may_tell_time(#[trigger] ts[j]) ==> duration_of(ts[j]) is None)
            ==> duration_text(ts, n) == duration_of(ts[k]),
        (forall|j: int|
            0 <= j < n && may_tell_time(#[trigger] ts[j]) ==> duration_of(ts[j]) is None)
            ==> duration_text(ts, n) is None,
    decreases n,
{
    if n > 0 {
        lemma_is_activity(ts[n - 1]);
        lemma_duration_text(ts, n - 1, k);
    }
}

/// The duration is that of the lowest line that tells one.
pub proof fn the_lowest_duration_is_reported(
    screen: Seq<char>,
    agents: AgentTable,
    r: ScreenInsights,
    k: int,
)
    requires
        reads(screen, agents, r),
    ensures
        0 <= k < lines(screen).len() && may_tell_time(trim(lines(screen)[k])) && duration_of(
            trim(lines(screen)[k]),
        ) is Some && (forall|j: int|
            k < j < lines(screen).len() && may_tell_time(trim(#[trigger] lines(screen)[j]))
                ==> duration_of(trim(lines(screen)[j])) is None) ==> opt_view(r.duration)
            == duration_of(trim(lines(screen)[k])),
        (forall|j: int|
            0 <= j < lines(screen).len() && may_tell_time(trim(#[trigger] lines(screen)[j]))
                ==> duration_of(trim(lines(screen)[j])) is None) ==> r.duration is None,
{
    let ls = lines(screen);
    let ts = trim_all(ls);
    assert(forall|j: int| 0 <= j < ts.len() ==> (#[trigger] ts[j]) == trim(ls[j]));
    lemma_duration_text(ts, ts.len() as int, k);
}

/// A duration names seconds, minutes or hours.
pub open spec fn is_duration(d: Seq<char>) -> bool {
    d.contains('s') || d.contains('m') || d.contains('h')
}

proof fn lemma_stop(x: Seq<char>, y: Seq<char>, a: char, b: char, c: char, i: int)
    requires
        0 <= i <= x.len(),
        forall|k: int| 0 <= k < x.len() ==> (#[trigger] x[k]) != a && x[k] != b && x[k] != c,
        y.len() > 0 ==> y[0] == a || y[0] == b || y[0] == c,
    ensures
        stop_at(x + y, a, b, c, i) == x.len(),
    decreases x.len() - i,
{
    if i < x.len() {
        assert((x + y)[i] == x[i]);
        lemma_stop(x, y, a, b, c, i + 1);
    }
}

/// A duration after `for ` reaches to a rule, a closing bracket or a dot, or to the end.
pub proof fn a_duration_follows_for(a: Seq<char>, x: Seq<char>, y: Seq<char>)
    requires
        find(a + "for "@ + x + y, "for "@) == Some(a.len() as int),
        forall|k: int|
            0 <= k < x.len() ==> (#[trigger] x[k]) != '─' && x[k] != ')' && x[k] != '·',
        y.len() > 0 ==> y[0] == '─' || y[0] == ')' || y[0] == '·',
        is_duration(trim(x)),
    ensures
        duration_of(a + "for "@ + x + y) == Some(trim(x)),
{
    reveal_strlit("for ");
    let t = a + "for "@ + x + y;
    assert(t.skip(a.len() as int + 4) =~= x + y);
    lemma_stop(x, y, '─', ')', '·', 0);
    assert((x + y).take(x.len() as int) =~= x);
}

/// A duration in brackets reaches from the first opening one to a closing one or a dot;
/// without such an end there is none.
pub proof fn a_duration_stands_in_brackets(a: Seq<char>, x: Seq<char>, y: Seq<char>)
    requires
        find(a + "("@ + x + y, "for "@) is None,
        !a.contains('('),
        forall|k: int| 0 <= k < x.len() ==> (#[trigger] x[k]) != ')' && x[k] != '·',
        y.len() > 0 ==> y[0] == ')' || y[0] == '·',
    ensures
        y.len() > 0 && is_duration(trim(x)) ==> duration_of(a + "("@ + x + y) == Some(trim(x)),
        y.len() == 0 || !is_duration(trim(x)) ==> duration_of(a + "("@ + x + y) is None,
{
    reveal_strlit("(");
    let t = a + "("@ + x + y;
    crate::search::lemma_find_from(t, "("@, 0);
    assert(t.subrange(a.len() as int, a.len() as int + 1) =~= "("@);
    assert(crate::search::matches_at(t, "("@, a.len() as int));
    let p = find(t, "("@).unwrap();
    if p < a.len() {
        assert(t.subrange(p, p + 1)[0] == a[p]);
        assert("("@[0] == '(');
    }
    assert(t.skip(a.len() as int + 1) =~= x + y);
    lemma_stop(x, y, '·', ')', ')', 0);
    assert((x + y).take(x.len() as int) =~= x);
}

// ---------------------------------------------------------------------------
// Tasks
// ---------------------------------------------------------------------------

/// How many lines begin with `mark`.
pub open spec fn lines_with(ts: Seq<Seq<char>>, mark: char) -> nat {
    ts.filter(|t: Seq<char>| begins(t, mark)).len()
}

/// The numbers of all `+N completed`, added up.
pub open spec fn folded_done(ts: Seq<Seq<char>>) -> int {
    ts.fold_left(0int, |sum: int, t: Seq<char>| sum + completed(t))
}

proof fn lemma_marked(ts: Seq<Seq<char>>, mark: char, n: int)
    requires
        0 <= n <= ts.len(),
    ensures
        marked(ts, mark, n) == lines_with(ts.take(n), mark),
    decreases n,
{
    reveal(Seq::filter);
    if n > 0 {
        lemma_marked(ts, mark, n - 1);
        assert(ts.take(n).drop_last() =~= ts.take(n - 1));
        assert(ts.take(n).last() == ts[n - 1]);
        assert(leads(ts[n - 1], mark) == begins(ts[n - 1], mark));
    } else {
        assert(ts.take(0).len() == 0);
    }
}

proof fn lemma_completed_sum(ts: Seq<Seq<char>>, n: int)
    requires
        0 <= n <= ts.len(),
    ensures
        completed_sum(ts, n) == folded_done(ts.take(n)),
    decreases n,
{
    if n > 0 {
        lemma_completed_sum(ts, n - 1);
        assert(ts.take(n).drop_last() =~= ts.take(n - 1));
        assert(ts.take(n).last() == ts[n - 1]);
    } else {
        assert(ts.take(0).len() == 0);
    }
}

/// A task is done when a check mark leads its line or it is folded into a count; the total
/// adds the tasks that a filled square leads.
pub proof fn tasks_are_counted_by_their_marks(
    screen: Seq<char>,
    agents: AgentTable,
    r: ScreenInsights,
)
    requires
        reads(screen, agents, r),
    ensures
        ({
            let ts = lines(screen).map_values(|l: Seq<char>| trim(l));
            &&& r.tasks_done == lines_with(ts, '✔') + folded_done(ts)
            &&& r.tasks_total == r.tasks_done + lines_with(ts, '◼')
        }),
{
    let ts = trim_all(lines(screen));
    let n = ts.len() as int;
    lemma_marked(ts, '✔', n);
    lemma_marked(ts, '◼', n);
    lemma_completed_sum(ts, n);
    assert(ts.take(n) =~= ts);
    assert(ts =~= lines(screen).map_values(|l: Seq<char>| trim(l)));
}

proof fn lemma_plus_word(ws: Seq<Seq<char>>, i: int, k: int)
    requires
        0 <= i,
    ensures
        i <= k < ws.len() && begins(ws[k], '+') && (forall|j: int|
            i <= j < k ==> !begins(#[trigger] ws[j], '+')) ==> plus_word(ws, i) == Some(ws[k]),
        (forall|j: int| i <= j < ws.len() ==> !begins(#[trigger] ws[j], '+')) ==> plus_word(ws, i)
            is None,
    decreases ws.len() - i,
{
    if i < ws.len() {
        lemma_plus_word(ws, i + 1, k);
    }
}

/// A line folds as many done tasks as the number behind its first plus sign says, if it
/// speaks of completed ones, and none otherwise.
pub proof fn a_count_of_completed_tasks_is_read(t: Seq<char>, k: int, digits: Seq<char>, n: nat)
    requires
        0 <= k < words(t).len(),
        forall|j: int| 0 <= j < k ==> !begins(#[trigger] words(t)[j], '+'),
        words(t)[k] == Seq::new(n, |i: int| '+') + digits,
        n > 0,
        digits.len() > 0 ==> digits[0] != '+',
    ensures
        has_text(t, "completed"@) && u16_numeral(digits) is Some ==> completed(t) == u16_numeral(
            digits,
        ).unwrap(),
        has_text(t, "completed"@) && u16_numeral(digits) is None ==> completed(t) == 0,
        !has_text(t, "completed"@) ==> completed(t) == 0,
{
    assert(words(t)[k][0] == '+');
    lemma_plus_word(words(t), 0, k);
    stripping_takes_every_leading_mark('+', n, digits);
}

proof fn lemma_pending_task(ts: Seq<Seq<char>>, i: int, k: int)
    requires
        0 <= i,
    ensures
        i <= k < ts.len() && names_pending(ts[k]) && (forall|j: int|
            i <= j < k ==> !names_pending(#[trigger] ts[j])) ==> pending_task(ts, i) == Some(
            trim(strip_leading(ts[k], '◼')),
        ),
        (forall|j: int| i <= j < ts.len() ==> !names_pending(#[trigger] ts[j])) ==> pending_task(
            ts,
            i,
        ) is None,
    decreases ts.len() - i,
{
    if i < ts.len() {
        lemma_pending_task(ts, i + 1, k);
    }
}

/// A filled square leads the line, and a name follows.
pub open spec fn names_pending(t: Seq<char>) -> bool {
    begins(t, '◼') && trim(strip_leading(t, '◼')).len() > 0
}

/// The pending task is the first one on the screen that has a name.
pub proof fn the_first_pending_task_is_reported(
    screen: Seq<char>,
    agents: AgentTable,
    r: ScreenInsights,
    k: int,
)
    requires
        reads(screen, agents, r),
    ensures
        0 <= k < lines(screen).len() && names_pending(trim(lines(screen)[k])) && (forall|j: int|
            0 <= j < k ==> !names_pending(trim(#[trigger] lines(screen)[j]))) ==> opt_view(
            r.pending_task,
        ) == Some(trim(strip_leading(trim(lines(screen)[k]), '◼'))),
        (forall|j: int|
            0 <= j < lines(screen).len() ==> !names_pending(trim(#[trigger] lines(screen)[j])))
            ==> r.pending_task is None,
{
    let ls = lines(screen);
    let ts = trim_all(ls);
    assert(forall|j: int| 0 <= j < ts.len() ==> (#[trigger] ts[j]) == trim(ls[j]));
    lemma_pending_task(ts, 0, k);
}

// ---------------------------------------------------------------------------
// Working directory and agent
// ---------------------------------------------------------------------------

/// A line names a directory where, behind its last separator, a path begins.
pub proof fn a_directory_follows_the_last_separator(a: Seq<char>, b: Seq<char>)
    requires
        rfind(a + " · "@ + b, " · "@) == Some(a.len() as int),
        begins(b, '/') || begins(b, '~') && b.len() > 1 && b[1] == '/',
    ensures
        directory_of(a + " · "@ + b) == Some(trim(b)),
{
    reveal_strlit(" · ");
    reveal_strlit(" · /");
    reveal_strlit(" · ~/");
    let t = a + " · "@ + b;
    let n = a.len() as int;
    if begins(b, '/') {
        assert(t.subrange(n, n + 4) =~= " · /"@);
        assert(crate::search::matches_at(t, " · /"@, n));
    } else {
        assert(t.subrange(n, n + 5) =~= " · ~/"@);
        assert(crate::search::matches_at(t, " · ~/"@, n));
    }
    let rest = t.skip(n + 2);
    assert(rest =~= seq![' '] + b);
    let s = a_text_is_its_trimmed_form_between_blanks(b);
    assert(!crate::text::is_space(b[0]));
    assert(s.0.len() == 0) by {
        if s.0.len() > 0 {
            assert(b[0] == s.0[0]);
        }
    }
    assert(trim(b).len() > 0) by {
        if trim(b).len() == 0 {
            assert(b =~= s.1);
        }
    }
    assert(trim(b)[0] == b[0]);
    let blank = seq![' '];
    assert(all_blank(blank));
    assert(rest =~= blank + trim(b) + s.1);
    trimming_takes_the_outer_blanks(blank, trim(b), s.1);
}

proof fn lemma_working_dir(ts: Seq<Seq<char>>, n: int, k: int)
    requires
        n <= ts.len(),
    ensures
        0 <= k < n && directory_of(ts[k]) is Some && (forall|j: int|
            k < j < n ==> directory_of(#[trigger] ts[j]) is None) ==> working_dir(ts, n)
            == directory_of(ts[k]),
        (forall|j: int| 0 <= j < n ==> directory_of(#[trigger] ts[j]) is None) ==> working_dir(
            ts,
            n,
        ) is None,
    decreases n,
{
    if n > 0 {
        lemma_working_dir(ts, n - 1, k);
    }
}

/// The working directory is that of the lowest line that names one.
pub proof fn the_lowest_directory_is_reported(
    screen: Seq<char>,
    agents: AgentTable,
    r: ScreenInsights,
    k: int,
)
    requires
        reads(screen, agents, r),
    ensures
        0 <= k < lines(screen).len() && directory_of(trim(lines(screen)[k])) is Some && (forall|
            j: int,
        |
            k < j < lines(screen).len() ==> directory_of(trim(#[trigger] lines(screen)[j])) is None)
            ==> opt_view(r.working_dir) == directory_of(trim(lines(screen)[k])),
        (forall|j: int|
            0 <= j < lines(screen).len() ==> directory_of(trim(#[trigger] lines(screen)[j]))
                is None) ==> r.working_dir is None,
{
    let ls = lines(screen);
    let ts = trim_all(ls);
    assert(forall|j: int| 0 <= j < ts.len() ==> (#[trigger] ts[j]) == trim(ls[j]));
    lemma_working_dir(ts, ts.len() as int, k);
}

/// An agent shows on a screen, in lower case, by its name behind a colon or a quotation
/// mark, or by one of its other texts.
pub open spec fn shows(a: crate::agents::AgentProfile, lower: Seq<char>) -> bool {
    ||| has_text(lower, ":"@ + a.name@)
    ||| has_text(lower, "\""@ + a.name@)
    ||| exists|k: int| 0 <= k < a.marks@.len() && has_text(lower, (#[trigger] a.marks@[k])@)
}

proof fn lemma_revealed(s: Seq<crate::agents::AgentProfile>, lower: Seq<char>, i: int, k: int)
    requires
        0 <= i,
    ensures
        i <= k < s.len() && shows(s[k], lower) && (forall|j: int|
            i <= j < k ==> !shows(#[trigger] s[j], lower)) ==> crate::agents::revealed_from(
            s,
            lower,
            i,
        ) == Some(s[k].name@),
        (forall|j: int| i <= j < s.len() ==> !shows(#[trigger] s[j], lower))
            ==> crate::agents::revealed_from(s, lower, i) is None,
    decreases s.len() - i,
{
    if i < s.len() {
        assert(reveals(s[i], lower) == shows(s[i], lower));
        lemma_revealed(s, lower, i + 1, k);
    }
}

/// The agent is the first of the table that shows on the screen.
pub proof fn the_first_agent_that_shows_is_reported(
    screen: Seq<char>,
    agents: AgentTable,
    r: ScreenInsights,
    k: int,
)
    requires
        reads(screen, agents, r),
    ensures
        0 <= k < agents.agents@.len() && shows(agents.agents@[k], lowercase(screen)) && (forall|
            j: int,
        |
            0 <= j < k ==> !shows(#[trigger] agents.agents@[j], lowercase(screen))) ==> opt_view(
            r.agent,
        ) == Some(agents.agents@[k].name@),
        (forall|j: int|
            0 <= j < agents.agents@.len() ==> !shows(
                #[trigger] agents.agents@[j],
                lowercase(screen),
            )) ==> r.agent is None,
{
    lemma_revealed(agents.agents@, lowercase(screen), 0, k);
}

} // verus!
