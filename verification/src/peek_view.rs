//! Peek mode: a read-only view of a surface's screen or session log.
use crate::clock::Moment;
use crate::search::{join, join_strings};
use crate::text::{
    ascii_lowered, chars_of, concat2, concat3, deep, is_space, lemma_one_run, lemma_views_push,
    lemma_word_chars, lemma_words_of_concat, lines, lines_of, lower_ascii, same, string_from, views,
    words, words_of,
};
use vstd::prelude::*;

verus! {

/// Maximum number of lines to keep in the rolling screen buffer.
pub const BUFFER_MAX_LINES: usize = 500;

/// Seconds between screen polls while in peek mode.
pub const PEEK_POLL_INTERVAL_SECS: u64 = 1;

/// Lines that Space and `-` jump.
pub const PAGE_SIZE: u16 = 10;

/// The words of an agent's turn that are shown.
pub const AGENT_TURN_WORDS: usize = 100;

/// Where the content comes from.
#[derive(Debug, PartialEq, Eq)]
pub enum PeekSource {
    /// An agent: the content is the workspace's session log.
    Agent { session_path: String },
    /// A plain terminal: the content is the polled screen.
    Shell,
}

impl Clone for PeekSource {
    fn clone(&self) -> (r: Self)
        ensures
            r == *self,
    {
        match self {
            PeekSource::Agent { session_path } => PeekSource::Agent {
                session_path: session_path.clone(),
            },
            PeekSource::Shell => PeekSource::Shell,
        }
    }
}

/// State for peek mode.
#[derive(Debug)]
pub struct PeekState {
    /// The workspace whose screen is read.
    pub workspace_ref: String,
    /// The surface that was selected.
    pub surface_ref: String,
    /// Label shown in the title bar.
    pub surface_label: String,
    pub source: PeekSource,
    /// How many lines from the top of the buffer to skip.
    pub scroll_offset: u16,
    /// The most recent content.
    pub screen_buffer: Vec<String>,
    /// When the screen was last polled.
    pub last_poll: Option<Moment>,
    /// Whether a poll is under way.
    pub polling: bool,
    /// Whether new content moves the view to the bottom.
    pub auto_follow: bool,
}

/// A turn of a conversation.
#[derive(Debug, Clone, PartialEq, Eq)]
pub struct Turn {
    pub time: String,
    pub role: String,
    pub content: String,
}

/// A number of lines in the width that scrolling counts in.
pub open spec fn counted(n: nat) -> u16 {
    n as u16
}

/// The greatest offset into `n` lines.
pub open spec fn max_offset(n: nat) -> int {
    if counted(n) > 0 {
        counted(n) - 1
    } else {
        0
    }
}

/// The lesser of two offsets.
pub open spec fn capped(x: int, max: int) -> int {
    if x <= max {
        x
    } else {
        max
    }
}

/// `x` lines less, at least none.
pub open spec fn lowered(x: int, by: int) -> int {
    if x >= by {
        x - by
    } else {
        0
    }
}

/// The most recent lines, as many as the buffer keeps.
pub open spec fn recent(all: Seq<Seq<char>>) -> Seq<Seq<char>> {
    if all.len() > BUFFER_MAX_LINES {
        all.skip(all.len() - BUFFER_MAX_LINES)
    } else {
        all
    }
}

/// The offset after new content: the bottom when following, else the old one
/// as far as the content reaches.
pub open spec fn settled_offset(follow: bool, offset: u16, n: nat) -> int {
    if follow {
        max_offset(n)
    } else {
        capped(offset as int, max_offset(n))
    }
}

/// Everything but offset, content, poll state and following is as before.
pub open spec fn same_target(a: PeekState, b: PeekState) -> bool {
    &&& a.workspace_ref == b.workspace_ref
    &&& a.surface_ref == b.surface_ref
    &&& a.surface_label == b.surface_label
    &&& a.source == b.source
}

/// After new content in `q`: the poll has ended, and the offset suits the content.
pub open spec fn settled_at(p: PeekState, now: Moment, q: PeekState) -> bool {
    &&& q.scroll_offset == settled_offset(p.auto_follow, p.scroll_offset, q.screen_buffer@.len())
    &&& q.last_poll == Some(now)
    &&& !q.polling
    &&& q.auto_follow == p.auto_follow
    &&& same_target(q, p)
}

/// `q` is the peek after it took a screen's text.
pub open spec fn took_screen(p: PeekState, text: Seq<char>, now: Moment, q: PeekState) -> bool {
    &&& views(q.screen_buffer@) == recent(views(p.screen_buffer@) + lines(text))
    &&& settled_at(p, now, q)
}

/// What a peek shows.
#[verifier::ext_equal]
pub struct PeekView {
    pub workspace_ref: Seq<char>,
    pub surface_ref: Seq<char>,
    pub surface_label: Seq<char>,
    /// The session log, where the content comes from one.
    pub session_path: Option<Seq<char>>,
    pub offset: u16,
    pub buffer: Seq<Seq<char>>,
    pub last_poll: Option<Moment>,
    pub polling: bool,
    pub follow: bool,
}

impl View for PeekState {
    type V = PeekView;

    open spec fn view(&self) -> PeekView {
        PeekView {
            workspace_ref: self.workspace_ref@,
            surface_ref: self.surface_ref@,
            surface_label: self.surface_label@,
            session_path: match self.source {
                PeekSource::Agent { session_path } => Some(session_path@),
                PeekSource::Shell => None,
            },
            offset: self.scroll_offset,
            buffer: views(self.screen_buffer@),
            last_poll: self.last_poll,
            polling: self.polling,
            follow: self.auto_follow,
        }
    }
}

/// `b` shows what `a` shows, in the same place.
pub open spec fn same_peek(a: PeekState, b: PeekState) -> bool {
    &&& b.screen_buffer@ == a.screen_buffer@
    &&& b == (PeekState { screen_buffer: b.screen_buffer, ..a })
}

impl Clone for PeekState {
    fn clone(&self) -> (r: Self)
        ensures
            same_peek(*self, r),
    {
        PeekState {
            workspace_ref: self.workspace_ref.clone(),
            surface_ref: self.surface_ref.clone(),
            surface_label: self.surface_label.clone(),
            source: self.source.clone(),
            scroll_offset: self.scroll_offset,
            screen_buffer: crate::text::clone_strings(&self.screen_buffer),
            last_poll: self.last_poll,
            polling: self.polling,
            auto_follow: self.auto_follow,
        }
    }
}

impl PeekState {
    /// Opens peek mode on a surface.
    pub fn new(
        workspace_ref: String,
        surface_ref: String,
        surface_label: String,
        source: PeekSource,
    ) -> (r: Self)
        ensures
            r.workspace_ref == workspace_ref,
            r.surface_ref == surface_ref,
            r.surface_label == surface_label,
            r.source == source,
            r.scroll_offset == 0,
            r.screen_buffer@.len() == 0,
            r.last_poll is None,
            !r.polling,
            r.auto_follow,
    {
        PeekState {
            workspace_ref,
            surface_ref,
            surface_label,
            source,
            scroll_offset: 0,
            screen_buffer: Vec::new(),
            last_poll: None,
            polling: false,
            auto_follow: true,
        }
    }

    /// Whether the content comes from the polled screen.
    pub fn uses_cmux_screen(&self) -> (r: bool)
        ensures
            r == (self.source is Shell),
    {
        match &self.source {
            PeekSource::Shell => true,
            _ => false,
        }
    }

    /// A poll is due: none is under way, and the last one is long enough ago.
    pub open spec fn poll_due(self, now: Moment) -> bool {
        !self.polling && match self.last_poll {
            Some(t) => t.elapsed_secs_spec(now) >= PEEK_POLL_INTERVAL_SECS,
            None => true,
        }
    }

    /// Whether a poll is due at `now`.
    pub fn should_poll(&self, now: Moment) -> (r: bool)
        ensures
            r == self.poll_due(now),
    {
        if self.polling {
            return false;
        }
        match self.last_poll {
            Some(t) => t.elapsed_secs(now) >= PEEK_POLL_INTERVAL_SECS,
            None => true,
        }
    }

    /// The greatest valid offset.
    pub open spec fn bottom(self) -> int {
        max_offset(self.screen_buffer@.len())
    }

    /// The first line that a pane of the given height shows.
    pub open spec fn shown_from(self, height: int) -> int {
        if self.auto_follow {
            lowered(counted(self.screen_buffer@.len()) as int, height)
        } else {
            self.scroll_offset as int
        }
    }

    /// The greatest valid offset.
    pub fn max_scroll(&self) -> (r: u16)
        ensures
            r == self.bottom(),
    {
        let n: u16 =
            #[verifier::truncate]
            (self.screen_buffer.len() as u16);
        n.saturating_sub(1)
    }

    fn settle(&mut self, now: Moment)
        ensures
            *final(self) == (PeekState {
                last_poll: Some(now),
                polling: false,
                scroll_offset: settled_offset(
                    old(self).auto_follow,
                    old(self).scroll_offset,
                    old(self).screen_buffer@.len(),
                ) as u16,
                ..*old(self)
            }),
    {
        self.last_poll = Some(now);
        self.polling = false;
        let max: u16 = self.max_scroll();
        if self.auto_follow || self.scroll_offset > max {
            self.scroll_offset = max;
        }
    }

    /// Takes new screen content: its lines are added to the buffer, which keeps
    /// the most recent ones.
    pub fn ingest_screen(&mut self, text: &str, now: Moment)
        ensures
            took_screen(*old(self), text@, now, *final(self)),
    {
        let ls = lines_of(&chars_of(text));
        let mut buffer: Vec<String> = Vec::new();
        std::mem::swap(&mut buffer, &mut self.screen_buffer);
        push_texts(&mut buffer, &ls);
        if buffer.len() > BUFFER_MAX_LINES {
            let ghost all = views(buffer@);
            let drop: usize = buffer.len() - BUFFER_MAX_LINES;
            let kept = buffer.split_off(drop);
            assert(views(kept@) =~= all.skip(drop as int));
            buffer = kept;
        }
        self.screen_buffer = buffer;
        self.settle(now);
    }

    /// Three lines down; the view no longer follows.
    pub fn scroll_down(&mut self)
        ensures
            *final(self) == (PeekState {
                scroll_offset: (if old(self).scroll_offset < old(self).bottom() {
                    capped(old(self).scroll_offset + 3, old(self).bottom())
                } else {
                    old(self).scroll_offset as int
                }) as u16,
                auto_follow: false,
                ..*old(self)
            }),
    {
        let max: u16 = self.max_scroll();
        if self.scroll_offset < max {
            let next: u16 = self.scroll_offset.saturating_add(3);
            self.scroll_offset = if next <= max {
                next
            } else {
                max
            };
        }
        self.auto_follow = false;
    }

    /// Three lines up; the view no longer follows.
    pub fn scroll_up(&mut self)
        ensures
            *final(self) == (PeekState {
                scroll_offset: lowered(old(self).scroll_offset as int, 3) as u16,
                auto_follow: false,
                ..*old(self)
            }),
    {
        self.scroll_offset = self.scroll_offset.saturating_sub(3);
        self.auto_follow = false;
    }

    /// A page down; the view no longer follows.
    pub fn page_down(&mut self)
        ensures
            *final(self) == (PeekState {
                scroll_offset: capped(
                    old(self).scroll_offset + PAGE_SIZE,
                    old(self).bottom(),
                ) as u16,
                auto_follow: false,
                ..*old(self)
            }),
    {
        let max: u16 = self.max_scroll();
        let next: u16 = self.scroll_offset.saturating_add(PAGE_SIZE);
        self.scroll_offset = if next <= max {
            next
        } else {
            max
        };
        self.auto_follow = false;
    }

    /// A page up; the view no longer follows.
    pub fn page_up(&mut self)
        ensures
            *final(self) == (PeekState {
                scroll_offset: lowered(old(self).scroll_offset as int, PAGE_SIZE as int) as u16,
                auto_follow: false,
                ..*old(self)
            }),
    {
        self.scroll_offset = self.scroll_offset.saturating_sub(PAGE_SIZE);
        self.auto_follow = false;
    }

    /// To the top; the view no longer follows.
    pub fn go_top(&mut self)
        ensures
            *final(self) == (PeekState { scroll_offset: 0, auto_follow: false, ..*old(self) }),
    {
        self.scroll_offset = 0;
        self.auto_follow = false;
    }

    /// To the bottom; the view follows again.
    pub fn go_bottom(&mut self)
        ensures
            *final(self) == (PeekState {
                scroll_offset: old(self).bottom() as u16,
                auto_follow: true,
                ..*old(self)
            }),
    {
        self.scroll_offset = self.max_scroll();
        self.auto_follow = true;
    }
}

/// No way of scrolling leaves the content.
pub proof fn scrolling_stays_in_range(offset: int, n: nat)
    requires
        0 <= offset <= max_offset(n),
    ensures
        0 <= capped(offset + 3, max_offset(n)) <= max_offset(n),
        0 <= capped(offset + PAGE_SIZE, max_offset(n)) <= max_offset(n),
        0 <= lowered(offset, 3) <= max_offset(n),
        0 <= lowered(offset, PAGE_SIZE as int) <= max_offset(n),
{
}

/// New content leaves a valid offset, whatever it was before, and a buffer
/// within its limit that ends with the newest lines.
pub proof fn new_content_is_bounded(
    before: Seq<Seq<char>>,
    added: Seq<Seq<char>>,
    follow: bool,
    offset: u16,
)
    ensures
        recent(before + added).len() <= BUFFER_MAX_LINES,
        settled_offset(follow, offset, recent(before + added).len()) <= max_offset(
            recent(before + added).len(),
        ),
        added.len() > 0 ==> recent(before + added).last() == added.last(),
{
}

fn push_texts(buffer: &mut Vec<String>, ls: &Vec<Vec<char>>)
    ensures
        views(final(buffer)@) == views(old(buffer)@) + deep(ls@),
{
    let ghost start = views(buffer@);
    let mut i: usize = 0;
    assert(start + deep(ls@).take(0) =~= start);
    while i < ls.len()
        invariant
            i <= ls@.len(),
            views(buffer@) == start + deep(ls@).take(i as int),
        decreases ls@.len() - i,
    {
        let s = string_from(&ls[i]);
        assert(deep(ls@)[i as int] == ls@[i as int]@);
        proof {
            lemma_views_push(buffer@, s);
        }
        buffer.push(s);
        assert((start + deep(ls@).take(i as int)).push(s@) =~= start + deep(ls@).take(i + 1));
        i += 1;
    }
    assert(deep(ls@).take(ls@.len() as int) =~= deep(ls@));
}

// ---------------------------------------------------------------------------
// Agent turns
// ---------------------------------------------------------------------------

/// The role is the human's: `boyan` or `user` in any case.
pub open spec fn is_human(role: Seq<char>) -> bool {
    ascii_lowered(role) == "boyan"@ || ascii_lowered(role) == "user"@
}

/// Whether a role is the human's.
pub fn is_user_role(role: &str) -> (r: bool)
    ensures
        r == is_human(role@),
{
    let s = lower_ascii(role);
    same(s.as_str(), "boyan") || same(s.as_str(), "user")
}

/// At most `n` words; a longer text is cut after them and marked with an
/// ellipsis.
pub open spec fn first_words(s: Seq<char>, n: int) -> Seq<char> {
    if words(s).len() <= n {
        s
    } else {
        join(words(s).take(n), " "@) + "…"@
    }
}

/// Cuts a text after `n` words.
pub fn truncate_words(s: &str, n: usize) -> (r: String)
    ensures
        r@ == first_words(s@, n as int),
{
    let ws = words_of(&chars_of(s));
    assert(deep(ws@).len() == ws@.len());
    if ws.len() <= n {
        return String::from_str(s);
    }
    let mut head: Vec<String> = Vec::new();
    let mut i: usize = 0;
    assert(views(head@) =~= words(s@).take(0));
    while i < n
        invariant
            i <= n < ws@.len(),
            deep(ws@) == words(s@),
            views(head@) == words(s@).take(i as int),
        decreases n - i,
    {
        let w = string_from(&ws[i]);
        assert(words(s@)[i as int] == deep(ws@)[i as int]);
        proof {
            lemma_views_push(head@, w);
        }
        head.push(w);
        assert(words(s@).take(i as int).push(w@) =~= words(s@).take(i + 1));
        i += 1;
    }
    concat2(join_strings(&head, " ").as_str(), "…")
}

/// What a turn shows: the human's words in full, an agent's up to a limit.
pub open spec fn shown_content(t: Turn) -> Seq<char> {
    if is_human(t.role@) {
        t.content@
    } else {
        first_words(t.content@, AGENT_TURN_WORDS as int)
    }
}

proof fn lemma_joined_words(ws: Seq<Seq<char>>, tail: Seq<char>)
    requires
        ws.len() > 0,
        forall|k: int, i: int|
            0 <= k < ws.len() && 0 <= i < ws[k].len() ==> !is_space(#[trigger] ws[k][i]),
        forall|i: int| 0 <= i < tail.len() ==> !is_space(#[trigger] tail[i]),
    ensures
        words(join(ws, " "@) + tail).len() <= ws.len(),
    decreases ws.len(),
{
    let last = ws.last() + tail;
    assert forall|i: int| 0 <= i < last.len() implies !is_space(#[trigger] last[i]) by {
        if i < ws.last().len() {
            assert(last[i] == ws[ws.len() - 1][i]);
        } else {
            assert(last[i] == tail[i - ws.last().len()]);
        }
    }
    lemma_one_run(last);
    if ws.len() > 1 {
        reveal_strlit(" ");
        let init = ws.drop_last();
        let end = " "@ + last;
        assert forall|k: int, i: int|
            0 <= k < init.len() && 0 <= i < init[k].len() implies !is_space(
            #[trigger] init[k][i],
        ) by {
            assert(init[k][i] == ws[k][i]);
        }
        lemma_joined_words(init, Seq::empty());
        assert(join(init, " "@) + Seq::<char>::empty() =~= join(init, " "@));
        assert(join(ws, " "@) + tail =~= join(init, " "@) + end);
        lemma_words_of_concat(join(init, " "@), end);
        assert(end.drop_first() =~= last);
    }
}

/// An agent's turn is shown with at most the words of the limit, and a shorter one as
/// it is. The human's words are shown in full.
pub proof fn only_an_agents_turn_is_cut(t: Turn)
    ensures
        is_human(t.role@) ==> shown_content(t) == t.content@,
        !is_human(t.role@) ==> words(shown_content(t)).len() <= AGENT_TURN_WORDS,
        words(t.content@).len() <= AGENT_TURN_WORDS ==> shown_content(t) == t.content@,
{
    let all = words(t.content@);
    if all.len() > AGENT_TURN_WORDS {
        let head = all.take(AGENT_TURN_WORDS as int);
        assert forall|k: int, i: int|
            0 <= k < head.len() && 0 <= i < head[k].len() implies !is_space(
            #[trigger] head[k][i],
        ) by {
            assert(head[k] == all[k]);
            lemma_word_chars(t.content@, k, i);
        }
        reveal_strlit("…");
        lemma_joined_words(head, "…"@);
    }
}

/// The lines of a turn: a header, the content and a blank line.
pub open spec fn turn_lines(t: Turn) -> Seq<Seq<char>> {
    seq!["## "@ + t.time@ + " — "@ + t.role@] + lines(shown_content(t)) + seq![
        Seq::<char>::empty(),
    ]
}

/// The lines of the first `n` turns.
pub open spec fn log_lines(turns: Seq<Turn>, n: int) -> Seq<Seq<char>>
    decreases n,
{
    if n <= 0 {
        Seq::empty()
    } else {
        log_lines(turns, n - 1) + turn_lines(turns[n - 1])
    }
}

fn push_turn(buffer: &mut Vec<String>, t: &Turn)
    ensures
        views(final(buffer)@) == views(old(buffer)@) + turn_lines(*t),
{
    let ghost start = views(buffer@);
    let mut header = concat3("## ", t.time.as_str(), " — ");
    header.append(t.role.as_str());
    proof {
        lemma_views_push(buffer@, header);
    }
    buffer.push(header);
    let content = if is_user_role(t.role.as_str()) {
        t.content.clone()
    } else {
        truncate_words(t.content.as_str(), AGENT_TURN_WORDS)
    };
    push_texts(buffer, &lines_of(&chars_of(content.as_str())));
    let blank = String::new();
    proof {
        lemma_views_push(buffer@, blank);
    }
    buffer.push(blank);
    assert(views(buffer@) =~= start + turn_lines(*t));
}

/// `q` is the peek after it took a session log, or failed to.
pub open spec fn took_log(
    p: PeekState,
    turns: Option<&Vec<Turn>>,
    now: Moment,
    q: PeekState,
) -> bool {
    match turns {
        Some(ts) => {
            &&& views(q.screen_buffer@) == log_lines(ts@, ts@.len() as int)
            &&& settled_at(p, now, q)
        },
        None => q == (PeekState { polling: false, last_poll: Some(now), ..p }),
    }
}

/// Replaces the content by the turns of a session log; `None` when the log
/// could not be read, which leaves the content and ends the poll.
pub fn rebuild_agent_buffer(state: &mut PeekState, turns: Option<&Vec<Turn>>, now: Moment)
    ensures
        took_log(*old(state), turns, now, *final(state)),
{
    match turns {
        None => {
            state.polling = false;
            state.last_poll = Some(now);
        },
        Some(ts) => {
            let mut buffer: Vec<String> = Vec::new();
            let mut i: usize = 0;
            assert(views(buffer@) =~= Seq::<Seq<char>>::empty());
            while i < ts.len()
                invariant
                    i <= ts@.len(),
                    views(buffer@) == log_lines(ts@, i as int),
                decreases ts@.len() - i,
            {
                push_turn(&mut buffer, &ts[i]);
                i += 1;
            }
            state.screen_buffer = buffer;
            state.settle(now);
        },
    }
}

// ---------------------------------------------------------------------------
// What the pane shows
// ---------------------------------------------------------------------------

/// The pane's title.
pub open spec fn title_text(name: Seq<char>) -> Seq<char> {
    " Peek: "@ + name
        + " (j/k slow · Space/- page · g/G top/bot · Esc back · Enter yield) "@
}

/// The pane's title.
pub fn peek_title(peek: &PeekState) -> (r: String)
    ensures
        r@ == title_text(peek.surface_label@),
{
    concat3(
        " Peek: ",
        peek.surface_label.as_str(),
        " (j/k slow · Space/- page · g/G top/bot · Esc back · Enter yield) ",
    )
}

/// What stands in for content while there is none.
pub fn placeholder(peek: &PeekState) -> (r: Option<&'static str>)
    ensures
        match r {
            Some(s) => peek.screen_buffer@.len() == 0 && s@ == if peek.polling {
                "Loading screen…"@
            } else {
                "No screen data yet — yield via Enter to view, or wait for first poll."@
            },
            None => peek.screen_buffer@.len() > 0,
        },
{
    if peek.screen_buffer.len() > 0 {
        None
    } else if peek.polling {
        Some("Loading screen…")
    } else {
        Some("No screen data yet — yield via Enter to view, or wait for first poll.")
    }
}

/// The first line to show in `height` rows: when following, the last lines
/// fill the pane.
pub fn effective_offset(peek: &PeekState, height: u16) -> (r: u16)
    ensures
        r == if peek.auto_follow {
            lowered(counted(peek.screen_buffer@.len()) as int, height as int)
        } else {
            peek.scroll_offset as int
        },
        r == peek.shown_from(height as int),
{
    if peek.auto_follow {
        let n: u16 =
            #[verifier::truncate]
            (peek.screen_buffer.len() as u16);
        n.saturating_sub(height)
    } else {
        peek.scroll_offset
    }
}

} // verus!
