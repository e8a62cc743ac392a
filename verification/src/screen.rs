//! What a captured terminal screen says about the agent running in it.
use crate::agents::AgentTable;
use crate::numeral::{is_digit, is_digit_char, parse_u16, u16_numeral};
use crate::search::{
    contains, find, find_in, has_text, holds_char, join, join_strings, leads, leads_with, rfind,
    rfind_in, starts, starts_with, strip_leading, strip_leading_chars,
};
use crate::text::{
    chars_of, clone_opt, clone_strings, deep, lemma_views_push, lines, lines_of, opt_view, slice_chars, string_from, trim, trim_all, trim_chars,
    trim_each, views, words, words_of,
};
use vstd::prelude::*;

verus! {

/// Key insights extracted from raw screen text.
#[derive(Debug)]
pub struct ScreenInsights {
    pub user_prompt: Option<String>,
    pub activity: Option<String>,
    pub working_dir: Option<String>,
    pub duration: Option<String>,
    pub tasks_done: u16,
    pub tasks_total: u16,
    pub pending_task: Option<String>,
    /// Agent detected from screen content (e.g. model names, tmux status bars).
    pub agent: Option<String>,
}

impl ScreenInsights {
    /// No insight at all.
    pub open spec fn is_blank(self) -> bool {
        &&& self.user_prompt is None
        &&& self.activity is None
        &&& self.working_dir is None
        &&& self.duration is None
        &&& self.tasks_done == 0
        &&& self.tasks_total == 0
        &&& self.pending_task is None
        &&& self.agent is None
    }
}

impl Clone for ScreenInsights {
    fn clone(&self) -> (r: Self)
        ensures
            r == *self,
    {
        ScreenInsights {
            user_prompt: clone_opt(&self.user_prompt),
            activity: clone_opt(&self.activity),
            working_dir: clone_opt(&self.working_dir),
            duration: clone_opt(&self.duration),
            tasks_done: self.tasks_done,
            tasks_total: self.tasks_total,
            pending_task: clone_opt(&self.pending_task),
            agent: clone_opt(&self.agent),
        }
    }
}

impl Default for ScreenInsights {
    fn default() -> (r: Self)
        ensures
            r.is_blank(),
    {
        ScreenInsights {
            user_prompt: None,
            activity: None,
            working_dir: None,
            duration: None,
            tasks_done: 0,
            tasks_total: 0,
            pending_task: None,
            agent: None,
        }
    }
}

// ---------------------------------------------------------------------------
// The input area
// ---------------------------------------------------------------------------

/// A line drawn with `─` alone.
pub open spec fn is_divider(t: Seq<char>) -> bool {
    t.len() > 0 && forall|k: int| 0 <= k < t.len() ==> t[k] == '─'
}

/// A line that may stand inside the input area: a status bar, a prompt or a
/// blank line.
pub open spec fn is_area_filler(t: Seq<char>) -> bool {
    leads(t, '⏵') || leads(t, '❯') || t.len() == 0
}

/// The scan for the input area, upward from line `i`: `start` is the topmost
/// divider met so far. Below the lowest divider everything is skipped; above
/// it the scan ends at the first line that is neither divider nor filler.
pub open spec fn area_scan(ts: Seq<Seq<char>>, i: int, start: int, found: bool) -> int
    decreases i,
{
    if i <= 0 {
        start
    } else if is_divider(ts[i - 1]) {
        area_scan(ts, i - 1, i - 1, true)
    } else if found && !is_area_filler(ts[i - 1]) {
        start
    } else {
        area_scan(ts, i - 1, start, found)
    }
}

/// The line at which the input area at the bottom of the screen begins; the
/// number of lines when the screen has none.
pub open spec fn input_area_start(ts: Seq<Seq<char>>) -> int {
    area_scan(ts, ts.len() as int, ts.len() as int, false)
}

fn divider(v: &Vec<char>) -> (r: bool)
    ensures
        r == is_divider(v@),
{
    let mut i: usize = 0;
    while i < v.len()
        invariant
            i <= v@.len(),
            forall|k: int| 0 <= k < i ==> v@[k] == '─',
        decreases v@.len() - i,
    {
        if v[i] != '─' {
            return false;
        }
        i += 1;
    }
    v.len() > 0
}

fn find_input_area(ts: &Vec<Vec<char>>) -> (r: usize)
    ensures
        r == input_area_start(deep(ts@)),
        r <= ts@.len(),
{
    let mut start: usize = ts.len();
    let mut found = false;
    let mut i: usize = ts.len();
    while i > 0
        invariant
            i <= start <= ts@.len(),
            input_area_start(deep(ts@)) == area_scan(deep(ts@), i as int, start as int, found),
        decreases i,
    {
        assert(deep(ts@)[i - 1] == ts@[i - 1]@);
        if divider(&ts[i - 1]) {
            start = i - 1;
            found = true;
        } else if found && !(leads_with(&ts[i - 1], '⏵') || leads_with(&ts[i - 1], '❯') || ts[i
            - 1].len() == 0) {
            return start;
        }
        i -= 1;
    }
    start
}

// ---------------------------------------------------------------------------
// Activity
// ---------------------------------------------------------------------------

/// An ASCII letter or digit.
pub open spec fn is_ascii_alnum(c: char) -> bool {
    is_digit(c) || 'a' <= c <= 'z' || 'A' <= c <= 'Z'
}

/// ASCII whitespace: space, tab, line feed, form feed, carriage return.
pub open spec fn is_ascii_space(c: char) -> bool {
    c == ' ' || c == '\t' || c == '\n' || c == '\u{c}' || c == '\r'
}

/// A character that may lead an activity line: anything but letters, digits,
/// whitespace, box drawing, bullets and prompt marks.
pub open spec fn is_spinner(c: char) -> bool {
    &&& !is_ascii_alnum(c)
    &&& !is_ascii_space(c)
    &&& c != '─' && c != '│' && c != '⏵' && c != '└' && c != '├' && c != '⎿' && c != '⏺'
    &&& c != '●' && c != '▸' && c != '▹' && c != '►' && c != '▶' && c != '›' && c != '❯'
}

/// The first character, or a space for an empty line.
pub open spec fn first_or_space(t: Seq<char>) -> char {
    if t.len() > 0 {
        t[0]
    } else {
        ' '
    }
}

/// A line led by a spinner that is no collapse marker such as
/// `… +301 lines (ctrl+o to expand)`.
pub open spec fn is_spinner_line(t: Seq<char>) -> bool {
    is_spinner(first_or_space(t)) && !has_text(t, "ctrl+"@) && !has_text(t, "lines ("@)
}

/// `✻ Puzzling… (2m 28s · ↑ 2.5k tokens)`
pub open spec fn is_running(t: Seq<char>) -> bool {
    t.contains('…') && t.contains('(') && t.contains('s')
}

/// `✻ Cooked for 11m 29s`
pub open spec fn is_finished(t: Seq<char>) -> bool {
    has_text(t, " for "@) && t.contains('s')
}

/// `• Working (54s · esc to interrupt)`: a digit stands after the first
/// parenthesis.
pub open spec fn is_timed(t: Seq<char>) -> bool {
    &&& t.contains('s')
    &&& exists|i: int, j: int|
        #![trigger t[i], t[j]]
        0 <= i <= j < t.len() && t[i] == '(' && is_digit(t[j])
}

/// The line that separates the prompt being worked on from queued follow-ups.
pub open spec fn marks_activity(t: Seq<char>) -> bool {
    is_spinner_line(t) && (is_running(t) || is_finished(t))
}

/// The line states what the agent is doing.
pub open spec fn states_activity(t: Seq<char>) -> bool {
    is_spinner_line(t) && (is_running(t) || is_finished(t) && !t.contains('…') || is_timed(t))
}

/// The last of the first `n` lines that marks activity.
pub open spec fn last_activity(ts: Seq<Seq<char>>, n: int) -> Option<int>
    decreases n,
{
    if n <= 0 {
        None
    } else if marks_activity(ts[n - 1]) {
        Some(n - 1)
    } else {
        last_activity(ts, n - 1)
    }
}

fn spinner_line(v: &Vec<char>) -> (r: bool)
    ensures
        r == is_spinner_line(v@),
{
    let c: char = if v.len() > 0 {
        v[0]
    } else {
        ' '
    };
    let alnum = is_digit_char(c) || ('a' <= c && c <= 'z') || ('A' <= c && c <= 'Z');
    let space = c == ' ' || c == '\t' || c == '\n' || c == '\u{c}' || c == '\r';
    let mark = c == '─' || c == '│' || c == '⏵' || c == '└' || c == '├' || c == '⎿' || c == '⏺' || c
        == '●' || c == '▸' || c == '▹' || c == '►' || c == '▶' || c == '›' || c == '❯';
    !alnum && !space && !mark && !contains(v, "ctrl+") && !contains(v, "lines (")
}

fn running(v: &Vec<char>) -> (r: bool)
    ensures
        r == is_running(v@),
{
    holds_char(v, '…') && holds_char(v, '(') && holds_char(v, 's')
}

fn finished(v: &Vec<char>) -> (r: bool)
    ensures
        r == is_finished(v@),
{
    contains(v, " for ") && holds_char(v, 's')
}

fn timed(v: &Vec<char>) -> (r: bool)
    ensures
        r == is_timed(v@),
{
    if !holds_char(v, 's') {
        return false;
    }
    let mut open = false;
    let mut i: usize = 0;
    while i < v.len()
        invariant
            i <= v@.len(),
            v@.contains('s'),
            open == exists|a: int| 0 <= a < i && #[trigger] v@[a] == '(',
            forall|a: int, b: int|
                0 <= a <= b < i && #[trigger] v@[a] == '(' ==> !is_digit(#[trigger] v@[b]),
        decreases v@.len() - i,
    {
        if v[i] == '(' {
            open = true;
        } else if open && is_digit_char(v[i]) {
            proof {
                let a = choose|a: int| 0 <= a < i && #[trigger] v@[a] == '(';
                assert(v@[a] == '(' && is_digit(v@[i as int]));
            }
            return true;
        }
        i += 1;
    }
    false
}

fn find_activity(ts: &Vec<Vec<char>>, n: usize) -> (r: Option<usize>)
    requires
        n <= ts@.len(),
    ensures
        match r {
            Some(k) => last_activity(deep(ts@), n as int) == Some(k as int) && k < n,
            None => last_activity(deep(ts@), n as int) is None,
        },
{
    let mut i: usize = n;
    while i > 0
        invariant
            i <= n <= ts@.len(),
            last_activity(deep(ts@), n as int) == last_activity(deep(ts@), i as int),
        decreases i,
    {
        let t = &ts[i - 1];
        assert(deep(ts@)[i - 1] == t@);
        if spinner_line(t) && (running(t) || finished(t)) {
            return Some(i - 1);
        }
        i -= 1;
    }
    None
}

// ---------------------------------------------------------------------------
// Durations
// ---------------------------------------------------------------------------

/// The text reads like a duration: it names seconds, minutes or hours.
pub open spec fn names_unit(d: Seq<char>) -> bool {
    d.contains('s') || d.contains('m') || d.contains('h')
}

/// The end of the leading run of characters that are not `a`, `b` or `c`.
pub open spec fn stop_at(s: Seq<char>, a: char, b: char, c: char, i: int) -> int
    decreases s.len() - i,
{
    if 0 <= i < s.len() && s[i] != a && s[i] != b && s[i] != c {
        stop_at(s, a, b, c, i + 1)
    } else {
        i
    }
}

/// After `for `: the text up to `─`, `)` or `·`.
pub open spec fn duration_after_for(t: Seq<char>) -> Option<Seq<char>> {
    match find(t, "for "@) {
        Some(p) => {
            let after = t.skip(p + 4);
            let d = trim(after.take(stop_at(after, '─', ')', '·', 0)));
            if names_unit(d) {
                Some(d)
            } else {
                None
            }
        },
        None => None,
    }
}

/// After the first parenthesis: the text up to `·` or `)`, which must be there.
pub open spec fn duration_in_parens(t: Seq<char>) -> Option<Seq<char>> {
    match find(t, "("@) {
        Some(p) => {
            let after = t.skip(p + 1);
            let e = stop_at(after, '·', ')', ')', 0);
            let d = trim(after.take(e));
            if e < after.len() && names_unit(d) {
                Some(d)
            } else {
                None
            }
        },
        None => None,
    }
}

/// The duration that a line states, like `18m 31s`.
pub open spec fn duration_of(t: Seq<char>) -> Option<Seq<char>> {
    match duration_after_for(t) {
        Some(d) => Some(d),
        None => duration_in_parens(t),
    }
}

fn stop_index(v: &Vec<char>, a: char, b: char, c: char) -> (r: usize)
    ensures
        r == stop_at(v@, a, b, c, 0),
        r <= v@.len(),
{
    let mut i: usize = 0;
    while i < v.len() && v[i] != a && v[i] != b && v[i] != c
        invariant
            i <= v@.len(),
            stop_at(v@, a, b, c, 0) == stop_at(v@, a, b, c, i as int),
        decreases v@.len() - i,
    {
        i += 1;
    }
    i
}

fn unit_named(v: &Vec<char>) -> (r: bool)
    ensures
        r == names_unit(v@),
{
    holds_char(v, 's') || holds_char(v, 'm') || holds_char(v, 'h')
}

/// Extracts a duration like `18m 31s` from `Worked for 6m 00s` or
/// `(18m 31s · …)`.
pub fn extract_duration(text: &str) -> (r: Option<String>)
    ensures
        opt_view(r) == duration_of(text@),
{
    let v = chars_of(text);
    let n: usize = v.len();
    proof {
        reveal_strlit("for ");
        reveal_strlit("(");
    }
    if let Some(p) = find_in(&v, "for ") {
        let after = slice_chars(&v, p + 4, n);
        assert(after@ =~= v@.skip(p + 4));
        let e: usize = stop_index(&after, '─', ')', '·');
        let head = slice_chars(&after, 0, e);
        assert(head@ =~= after@.take(e as int));
        let d = trim_chars(&head);
        if unit_named(&d) {
            return Some(string_from(&d));
        }
    }
    if let Some(p) = find_in(&v, "(") {
        let after = slice_chars(&v, p + 1, n);
        assert(after@ =~= v@.skip(p + 1));
        let e: usize = stop_index(&after, '·', ')', ')');
        if e < after.len() {
            let head = slice_chars(&after, 0, e);
            assert(head@ =~= after@.take(e as int));
            let d = trim_chars(&head);
            if unit_named(&d) {
                return Some(string_from(&d));
            }
        }
    }
    None
}

// ---------------------------------------------------------------------------
// The user's prompt
// ---------------------------------------------------------------------------

/// A line led by one of the two prompt marks.
pub open spec fn is_prompt(t: Seq<char>) -> bool {
    leads(t, '❯') || leads(t, '›')
}

/// What a prompt line in the input area asks.
pub open spec fn input_content(t: Seq<char>) -> Seq<char> {
    trim(strip_leading(strip_leading(t, '❯'), '›'))
}

/// What a prompt line in the conversation asks.
pub open spec fn conversation_content(t: Seq<char>) -> Seq<char> {
    trim(strip_leading(strip_leading(t, '›'), '❯'))
}

/// The content is the user's own: neither blank nor a hint of the program.
pub open spec fn is_asked(content: Seq<char>) -> bool {
    &&& content.len() > 0
    &&& !has_text(content, "Press up to edit"@)
    &&& !has_text(content, "Enter to select"@)
}

/// The last prompt of the lines `from..n` that asks something.
pub open spec fn input_prompt(ts: Seq<Seq<char>>, from: int, n: int) -> Option<Seq<char>>
    decreases n - from,
{
    if n <= from {
        None
    } else if is_prompt(ts[n - 1]) && is_asked(input_content(ts[n - 1])) {
        Some(input_content(ts[n - 1]))
    } else {
        input_prompt(ts, from, n - 1)
    }
}

/// The state of the search for a prompt in the conversation: the last complete
/// prompt, and the one being read.
pub struct PromptScan {
    pub best: Option<Seq<Seq<char>>>,
    pub current: Seq<Seq<char>>,
    pub reading: bool,
}

/// The search after the first `n` lines. A prompt goes on over indented lines;
/// a blank line, a rule or a line at the margin completes it.
pub open spec fn prompt_scan(ls: Seq<Seq<char>>, n: int) -> PromptScan
    decreases n,
{
    if n <= 0 {
        PromptScan { best: None, current: Seq::empty(), reading: false }
    } else {
        let p = prompt_scan(ls, n - 1);
        let t = trim(ls[n - 1]);
        if is_prompt(t) {
            let c = conversation_content(t);
            if is_asked(c) {
                PromptScan { best: p.best, current: seq![c], reading: true }
            } else {
                PromptScan { best: p.best, current: p.current, reading: false }
            }
        } else if !p.reading {
            p
        } else if t.len() > 0 && !leads(t, '─') && starts_with(ls[n - 1], "  "@) {
            PromptScan { best: p.best, current: p.current.push(t), reading: true }
        } else {
            PromptScan { best: Some(p.current), current: p.current, reading: false }
        }
    }
}

/// The last prompt of the first `n` lines, its lines joined by spaces.
pub open spec fn conversation_prompt(ls: Seq<Seq<char>>, n: int) -> Option<Seq<char>> {
    let p = prompt_scan(ls, n);
    if p.reading {
        Some(join(p.current, " "@))
    } else {
        match p.best {
            Some(b) => Some(join(b, " "@)),
            None => None,
        }
    }
}

/// The prompt that the agent is working on: the one in the input area, else the
/// last one in the conversation above the activity line.
pub open spec fn user_prompt(ls: Seq<Seq<char>>) -> Option<Seq<char>> {
    let ts = trim_all(ls);
    let area = input_area_start(ts);
    match input_prompt(ts, area, ts.len() as int) {
        Some(p) => Some(p),
        None => conversation_prompt(
            ls,
            match last_activity(ts, area) {
                Some(i) => i,
                None => area,
            },
        ),
    }
}

fn asked(v: &Vec<char>) -> (r: bool)
    ensures
        r == is_asked(v@),
{
    v.len() > 0 && !contains(v, "Press up to edit") && !contains(v, "Enter to select")
}

fn find_input_prompt(ts: &Vec<Vec<char>>, from: usize) -> (r: Option<String>)
    requires
        from <= ts@.len(),
    ensures
        opt_view(r) == input_prompt(deep(ts@), from as int, ts@.len() as int),
{
    let mut n: usize = ts.len();
    while n > from
        invariant
            from <= n <= ts@.len(),
            input_prompt(deep(ts@), from as int, ts@.len() as int) == input_prompt(
                deep(ts@),
                from as int,
                n as int,
            ),
        decreases n,
    {
        let t = &ts[n - 1];
        assert(deep(ts@)[n - 1] == t@);
        if leads_with(t, '❯') || leads_with(t, '›') {
            let c = trim_chars(&strip_leading_chars(&strip_leading_chars(t, '❯'), '›'));
            if asked(&c) {
                return Some(string_from(&c));
            }
        }
        n -= 1;
    }
    None
}

fn find_conversation_prompt(ls: &Vec<Vec<char>>, n: usize) -> (r: Option<String>)
    requires
        n <= ls@.len(),
    ensures
        opt_view(r) == conversation_prompt(deep(ls@), n as int),
{
    let mut best: Option<Vec<String>> = None;
    let mut current: Vec<String> = Vec::new();
    let mut reading = false;
    let mut i: usize = 0;
    assert(views(current@) =~= Seq::<Seq<char>>::empty());
    while i < n
        invariant
            i <= n <= ls@.len(),
            views(current@) == prompt_scan(deep(ls@), i as int).current,
            reading == prompt_scan(deep(ls@), i as int).reading,
            match best {
                Some(b) => prompt_scan(deep(ls@), i as int).best == Some(views(b@)),
                None => prompt_scan(deep(ls@), i as int).best is None,
            },
        decreases n - i,
    {
        let line = &ls[i];
        let t = trim_chars(line);
        assert(deep(ls@)[i as int] == line@);
        if leads_with(&t, '›') || leads_with(&t, '❯') {
            let c = trim_chars(&strip_leading_chars(&strip_leading_chars(&t, '›'), '❯'));
            if asked(&c) {
                reading = true;
                current = Vec::new();
                current.push(string_from(&c));
                assert(views(current@) =~= seq![c@]);
            } else {
                reading = false;
            }
        } else if reading {
            if t.len() > 0 && !leads_with(&t, '─') && starts(line, "  ") {
                let ghost before = current@;
                let piece = string_from(&t);
                proof {
                    lemma_views_push(before, piece);
                }
                current.push(piece);
            } else {
                best = Some(clone_strings(&current));
                reading = false;
            }
        }
        i += 1;
    }
    if reading {
        Some(join_strings(&current, " "))
    } else {
        match best {
            Some(b) => Some(join_strings(&b, " ")),
            None => None,
        }
    }
}

// ---------------------------------------------------------------------------
// Activity and duration
// ---------------------------------------------------------------------------

/// The line states how long the agent has worked: an activity line, or a rule
/// like `─ Worked for 6m 00s ────`.
pub open spec fn states_duration(t: Seq<char>) -> bool {
    states_activity(t) || leads(t, '─') && has_text(t, "Worked for "@)
}

/// The last of the first `n` lines that states an activity.
pub open spec fn activity_text(ts: Seq<Seq<char>>, n: int) -> Option<Seq<char>>
    decreases n,
{
    if n <= 0 {
        None
    } else if states_activity(ts[n - 1]) {
        Some(ts[n - 1])
    } else {
        activity_text(ts, n - 1)
    }
}

/// The last duration stated in the first `n` lines.
pub open spec fn duration_text(ts: Seq<Seq<char>>, n: int) -> Option<Seq<char>>
    decreases n,
{
    if n <= 0 {
        None
    } else if states_duration(ts[n - 1]) && duration_of(ts[n - 1]) is Some {
        duration_of(ts[n - 1])
    } else {
        duration_text(ts, n - 1)
    }
}

fn activity_stated(t: &Vec<char>) -> (r: bool)
    ensures
        r == states_activity(t@),
{
    spinner_line(t) && (running(t) || (finished(t) && !holds_char(t, '…')) || timed(t))
}

fn find_activity_text(ts: &Vec<Vec<char>>) -> (r: Option<String>)
    ensures
        opt_view(r) == activity_text(deep(ts@), ts@.len() as int),
{
    let mut n: usize = ts.len();
    while n > 0
        invariant
            n <= ts@.len(),
            activity_text(deep(ts@), ts@.len() as int) == activity_text(deep(ts@), n as int),
        decreases n,
    {
        let t = &ts[n - 1];
        assert(deep(ts@)[n - 1] == t@);
        if activity_stated(t) {
            return Some(string_from(t));
        }
        n -= 1;
    }
    None
}

fn find_duration_text(ts: &Vec<Vec<char>>) -> (r: Option<String>)
    ensures
        opt_view(r) == duration_text(deep(ts@), ts@.len() as int),
{
    let mut n: usize = ts.len();
    while n > 0
        invariant
            n <= ts@.len(),
            duration_text(deep(ts@), ts@.len() as int) == duration_text(deep(ts@), n as int),
        decreases n,
    {
        let t = &ts[n - 1];
        assert(deep(ts@)[n - 1] == t@);
        if activity_stated(t) || (leads_with(t, '─') && contains(t, "Worked for ")) {
            let d = extract_duration(string_from(t).as_str());
            if d.is_some() {
                return d;
            }
        }
        n -= 1;
    }
    None
}

// ---------------------------------------------------------------------------
// Tasks
// ---------------------------------------------------------------------------

/// How many of the first `n` lines are led by `mark`.
pub open spec fn marked(ts: Seq<Seq<char>>, mark: char, n: int) -> nat
    decreases n,
{
    if n <= 0 {
        0
    } else {
        marked(ts, mark, n - 1) + if leads(ts[n - 1], mark) {
            1nat
        } else {
            0nat
        }
    }
}

/// The name of the first pending task that has one.
pub open spec fn pending_task(ts: Seq<Seq<char>>, i: int) -> Option<Seq<char>>
    decreases ts.len() - i,
{
    if i < 0 || i >= ts.len() {
        None
    } else if leads(ts[i], '◼') && trim(strip_leading(ts[i], '◼')).len() > 0 {
        Some(trim(strip_leading(ts[i], '◼')))
    } else {
        pending_task(ts, i + 1)
    }
}

/// The first word at or after `i` that a plus sign leads.
pub open spec fn plus_word(ws: Seq<Seq<char>>, i: int) -> Option<Seq<char>>
    decreases ws.len() - i,
{
    if i < 0 || i >= ws.len() {
        None
    } else if leads(ws[i], '+') {
        Some(ws[i])
    } else {
        plus_word(ws, i + 1)
    }
}

/// The number in a line like `… +5 completed`; zero for any other line.
pub open spec fn completed(t: Seq<char>) -> nat {
    if has_text(t, "completed"@) {
        match plus_word(words(t), 0) {
            Some(w) => match u16_numeral(strip_leading(w, '+')) {
                Some(n) => n as nat,
                None => 0,
            },
            None => 0,
        }
    } else {
        0
    }
}

/// The numbers of the first `n` lines' `+N completed`, added up.
pub open spec fn completed_sum(ts: Seq<Seq<char>>, n: int) -> nat
    decreases n,
{
    if n <= 0 {
        0
    } else {
        completed_sum(ts, n - 1) + completed(ts[n - 1])
    }
}

/// Done tasks: those shown with a check mark and those counted as completed.
pub open spec fn tasks_done(ts: Seq<Seq<char>>) -> nat {
    marked(ts, '✔', ts.len() as int) + completed_sum(ts, ts.len() as int)
}

/// All tasks: the done ones and the pending ones.
pub open spec fn tasks_total(ts: Seq<Seq<char>>) -> nat {
    tasks_done(ts) + marked(ts, '◼', ts.len() as int)
}

/// Counts grow with the number of lines.
pub proof fn lemma_counts_grow(ts: Seq<Seq<char>>, n: int, m: int)
    requires
        0 <= n <= m,
    ensures
        marked(ts, '✔', n) <= marked(ts, '✔', m),
        marked(ts, '◼', n) <= marked(ts, '◼', m),
        completed_sum(ts, n) <= completed_sum(ts, m),
    decreases m - n,
{
    if n < m {
        lemma_counts_grow(ts, n, m - 1);
    }
}

fn count_completed(t: &Vec<char>) -> (r: u16)
    ensures
        r == completed(t@),
{
    if !contains(t, "completed") {
        return 0;
    }
    let ws = words_of(t);
    let mut i: usize = 0;
    while i < ws.len()
        invariant
            i <= ws@.len(),
            deep(ws@) == words(t@),
            has_text(t@, "completed"@),
            plus_word(words(t@), 0) == plus_word(words(t@), i as int),
        decreases ws@.len() - i,
    {
        let w = &ws[i];
        assert(words(t@)[i as int] == deep(ws@)[i as int]);
        assert(deep(ws@)[i as int] == w@);
        if leads_with(w, '+') {
            return match parse_u16(&strip_leading_chars(w, '+')) {
                Some(n) => n,
                None => 0,
            };
        }
        i += 1;
    }
    assert(words(t@).len() == ws@.len());
    0
}

fn count_tasks(ts: &Vec<Vec<char>>) -> (r: (u16, u16))
    requires
        tasks_total(deep(ts@)) <= u16::MAX,
    ensures
        r.0 == tasks_done(deep(ts@)),
        r.1 == tasks_total(deep(ts@)),
{
    let mut done: u16 = 0;
    let mut pending: u16 = 0;
    let mut i: usize = 0;
    while i < ts.len()
        invariant
            i <= ts@.len(),
            tasks_total(deep(ts@)) <= u16::MAX,
            done == marked(deep(ts@), '✔', i as int) + completed_sum(deep(ts@), i as int),
            pending == marked(deep(ts@), '◼', i as int),
        decreases ts@.len() - i,
    {
        proof {
            lemma_counts_grow(deep(ts@), i + 1, ts@.len() as int);
            assert(deep(ts@)[i as int] == ts@[i as int]@);
        }
        if leads_with(&ts[i], '✔') {
            done += 1;
        } else if leads_with(&ts[i], '◼') {
            pending += 1;
        }
        done += count_completed(&ts[i]);
        i += 1;
    }
    (done, done + pending)
}

fn find_pending_task(ts: &Vec<Vec<char>>) -> (r: Option<String>)
    ensures
        opt_view(r) == pending_task(deep(ts@), 0),
{
    let mut i: usize = 0;
    while i < ts.len()
        invariant
            i <= ts@.len(),
            pending_task(deep(ts@), 0) == pending_task(deep(ts@), i as int),
        decreases ts@.len() - i,
    {
        assert(deep(ts@)[i as int] == ts@[i as int]@);
        if leads_with(&ts[i], '◼') {
            let name = trim_chars(&strip_leading_chars(&ts[i], '◼'));
            if name.len() > 0 {
                return Some(string_from(&name));
            }
        }
        i += 1;
    }
    None
}

// ---------------------------------------------------------------------------
// Working directory
// ---------------------------------------------------------------------------

/// The directory of a line like `model · ~/Projects`: what follows the last
/// separator, when the line has a separator before a path and the rest is one.
pub open spec fn directory_of(t: Seq<char>) -> Option<Seq<char>> {
    if has_text(t, " · ~/"@) || has_text(t, " · /"@) {
        match rfind(t, " · "@) {
            Some(p) => {
                let dir = trim(t.skip(p + 2));
                if leads(dir, '~') || leads(dir, '/') {
                    Some(dir)
                } else {
                    None
                }
            },
            None => None,
        }
    } else {
        None
    }
}

/// The directory of the last of the first `n` lines that names one.
pub open spec fn working_dir(ts: Seq<Seq<char>>, n: int) -> Option<Seq<char>>
    decreases n,
{
    if n <= 0 {
        None
    } else if directory_of(ts[n - 1]) is Some {
        directory_of(ts[n - 1])
    } else {
        working_dir(ts, n - 1)
    }
}

fn find_directory(t: &Vec<char>) -> (r: Option<String>)
    ensures
        opt_view(r) == directory_of(t@),
{
    let n: usize = t.len();
    proof {
        reveal_strlit(" · ");
    }
    if contains(t, " · ~/") || contains(t, " · /") {
        if let Some(p) = rfind_in(t, " · ") {
            let rest = slice_chars(t, p + 2, n);
            assert(rest@ =~= t@.skip(p + 2));
            let dir = trim_chars(&rest);
            if leads_with(&dir, '~') || leads_with(&dir, '/') {
                return Some(string_from(&dir));
            }
        }
    }
    None
}

fn find_working_dir(ts: &Vec<Vec<char>>) -> (r: Option<String>)
    ensures
        opt_view(r) == working_dir(deep(ts@), ts@.len() as int),
{
    let mut n: usize = ts.len();
    while n > 0
        invariant
            n <= ts@.len(),
            working_dir(deep(ts@), ts@.len() as int) == working_dir(deep(ts@), n as int),
        decreases n,
    {
        assert(deep(ts@)[n - 1] == ts@[n - 1]@);
        let d = find_directory(&ts[n - 1]);
        if d.is_some() {
            return d;
        }
        n -= 1;
    }
    None
}

// ---------------------------------------------------------------------------
// Agent
// ---------------------------------------------------------------------------

/// The lower-case form of a text, as `str::to_lowercase` computes it from the
/// Unicode tables.
pub uninterp spec fn lowercase(s: Seq<char>) -> Seq<char>;

/// Calls `str::to_lowercase`: the result is the lower-case form of the
/// argument, which the Unicode tables determine.
#[verifier::external_body]
pub(crate) fn to_lowercase(s: &str) -> (r: String)
    ensures
        r@ == lowercase(s@),
{
    s.to_lowercase()
}

// ---------------------------------------------------------------------------
// All of it
// ---------------------------------------------------------------------------

/// `r` holds what the screen tells.
pub open spec fn reads(screen: Seq<char>, agents: AgentTable, r: ScreenInsights) -> bool {
    let ls = lines(screen);
    let ts = trim_all(ls);
    let n = ts.len() as int;
    &&& opt_view(r.user_prompt) == user_prompt(ls)
    &&& opt_view(r.activity) == activity_text(ts, n)
    &&& opt_view(r.duration) == duration_text(ts, n)
    &&& r.tasks_done == tasks_done(ts)
    &&& r.tasks_total == tasks_total(ts)
    &&& opt_view(r.pending_task) == pending_task(ts, 0)
    &&& opt_view(r.working_dir) == working_dir(ts, n)
    &&& opt_view(r.agent) == agents.revealed(lowercase(screen))
}

/// Whether the tasks that a screen shows can be counted.
pub fn tasks_countable(screen: &str) -> (r: bool)
    ensures
        r == (tasks_total(trim_all(lines(screen@))) <= u16::MAX),
{
    let ts = trim_each(&lines_of(&chars_of(screen)));
    let ghost all = deep(ts@);
    assert(all.len() == ts@.len());
    let mut total: u32 = 0;
    let mut i: usize = 0;
    while i < ts.len()
        invariant
            i <= ts@.len() == all.len(),
            all == deep(ts@),
            all == trim_all(lines(screen@)),
            total <= u16::MAX,
            total == marked(all, '✔', i as int) + completed_sum(all, i as int) + marked(
                all,
                '◼',
                i as int,
            ),
        decreases ts@.len() - i,
    {
        proof {
            lemma_counts_grow(all, i + 1, all.len() as int);
            assert(all[i as int] == ts@[i as int]@);
        }
        if leads_with(&ts[i], '✔') || leads_with(&ts[i], '◼') {
            total += 1;
        }
        total += count_completed(&ts[i]) as u32;
        if total > 0xffff {
            return false;
        }
        i += 1;
    }
    true
}

/// Parses screen text for the user's prompt, the activity, the tasks, the
/// working directory and the agent. The task counts must fit their type.
pub fn parse_screen_insights(screen: &str, agents: &AgentTable) -> (r: ScreenInsights)
    requires
        tasks_total(trim_all(lines(screen@))) <= u16::MAX,
    ensures
        reads(screen@, *agents, r),
{
    let ls = lines_of(&chars_of(screen));
    let ts = trim_each(&ls);
    let area: usize = find_input_area(&ts);
    let user_prompt = match find_input_prompt(&ts, area) {
        Some(p) => Some(p),
        None => {
            let limit: usize = match find_activity(&ts, area) {
                Some(i) => i,
                None => area,
            };
            assert(deep(ls@).len() == deep(ts@).len());
            find_conversation_prompt(&ls, limit)
        },
    };
    let (tasks_done, tasks_total) = count_tasks(&ts);
    ScreenInsights {
        user_prompt,
        activity: find_activity_text(&ts),
        working_dir: find_working_dir(&ts),
        duration: find_duration_text(&ts),
        tasks_done,
        tasks_total,
        pending_task: find_pending_task(&ts),
        agent: agents.detect_agent(to_lowercase(screen).as_str()),
    }
}

} // verus!
