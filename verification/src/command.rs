//! The `:command` bar: a line editor with completion of the command's name.
use crate::search::{holds_char, join, join_strings, match_at, starts_with};
use crate::text::{
    chars_of, concat2, deep, lemma_views_push, slice_chars, string_from, string_of, views, words,
    words_of,
};
use vstd::prelude::*;

verus! {

/// Whether keys go to the panes or to the command bar.
#[derive(Debug, Clone)]
pub enum InputMode {
    Normal,
    Command(CommandLine),
}

impl Default for InputMode {
    fn default() -> (r: Self)
        ensures
            r is Normal,
    {
        InputMode::Normal
    }
}

/// Feedback shown after the command.
#[derive(Debug, Clone, PartialEq, Eq)]
pub enum StatusLine {
    /// The command did this.
    Done(String),
    /// The command failed with this.
    Failed(String),
}

/// The command being typed.
#[derive(Debug, Clone)]
pub struct CommandLine {
    pub buffer: String,
    /// Position of the cursor in the buffer's UTF-8 bytes.
    pub cursor: usize,
    pub status: Option<StatusLine>,
    /// True after one Tab with several matches; the next Tab shows them.
    pub tab_armed: bool,
}

/// The names of the commands, in the order in which matches are listed.
#[derive(Debug, Clone)]
pub struct CommandTable {
    pub names: Vec<String>,
}

/// Result of one Tab press.
#[derive(Debug, Clone, PartialEq, Eq)]
pub enum TabOutcome {
    NoOp,
    NoMatch,
    Completed(String),
    ExtendedPrefix(String),
    ShowMatches(Vec<String>),
}

/// What a Tab press yields.
pub enum TabView {
    NoOp,
    NoMatch,
    Completed(Seq<char>),
    ExtendedPrefix(Seq<char>),
    ShowMatches(Seq<Seq<char>>),
}

impl View for TabOutcome {
    type V = TabView;

    open spec fn view(&self) -> TabView {
        match *self {
            TabOutcome::NoOp => TabView::NoOp,
            TabOutcome::NoMatch => TabView::NoMatch,
            TabOutcome::Completed(s) => TabView::Completed(s@),
            TabOutcome::ExtendedPrefix(s) => TabView::ExtendedPrefix(s@),
            TabOutcome::ShowMatches(v) => TabView::ShowMatches(views(v@)),
        }
    }
}

// ---------------------------------------------------------------------------
// Byte positions
// ---------------------------------------------------------------------------

/// How many bytes a character takes in UTF-8.
pub open spec fn width(c: char) -> int {
    if (c as int) < 0x80 {
        1
    } else if (c as int) < 0x800 {
        2
    } else if (c as int) < 0x10000 {
        3
    } else {
        4
    }
}

/// How many bytes a text takes in UTF-8.
pub open spec fn byte_len(s: Seq<char>) -> int
    decreases s.len(),
{
    if s.len() == 0 {
        0
    } else {
        width(s[0]) + byte_len(s.drop_first())
    }
}

/// How many characters begin before byte `b`.
pub open spec fn char_pos(s: Seq<char>, b: int) -> int
    decreases s.len(),
{
    if b <= 0 || s.len() == 0 {
        0
    } else {
        1 + char_pos(s.drop_first(), b - width(s[0]))
    }
}

/// `b` is where a character of `s` begins, or its end.
pub open spec fn is_boundary(s: Seq<char>, b: int) -> bool {
    0 <= char_pos(s, b) <= s.len() && byte_len(s.take(char_pos(s, b))) == b
}

/// The bytes of a longer prefix are more.
pub proof fn lemma_byte_len_take(s: Seq<char>, k: int)
    requires
        0 <= k < s.len(),
    ensures
        byte_len(s.take(k + 1)) == byte_len(s.take(k)) + width(s[k]),
    decreases k,
{
    if k == 0 {
        assert(s.take(1).drop_first() =~= Seq::<char>::empty());
        assert(byte_len(Seq::<char>::empty()) == 0);
    } else {
        let t = s.drop_first();
        lemma_byte_len_take(t, k - 1);
        assert(s.take(k + 1).drop_first() =~= t.take(k));
        assert(s.take(k).drop_first() =~= t.take(k - 1));
        assert(t[k - 1] == s[k]);
    }
}

/// A prefix takes no more bytes than a longer one.
pub proof fn lemma_byte_len_monotone(s: Seq<char>, i: int, j: int)
    requires
        0 <= i <= j <= s.len(),
    ensures
        byte_len(s.take(i)) <= byte_len(s.take(j)),
        i < j ==> byte_len(s.take(i)) < byte_len(s.take(j)),
    decreases j - i,
{
    if i < j {
        lemma_byte_len_monotone(s, i, j - 1);
        lemma_byte_len_take(s, j - 1);
    }
}

/// The character position of a prefix's end is its length.
pub proof fn lemma_char_pos_of_prefix(s: Seq<char>, k: int)
    requires
        0 <= k <= s.len(),
    ensures
        char_pos(s, byte_len(s.take(k))) == k,
        is_boundary(s, byte_len(s.take(k))),
    decreases k,
{
    if k == 0 {
        assert(s.take(0) =~= Seq::<char>::empty());
        assert(byte_len(Seq::<char>::empty()) == 0);
    } else {
        let t = s.drop_first();
        lemma_char_pos_of_prefix(t, k - 1);
        assert(s.take(k).drop_first() =~= t.take(k - 1));
        assert(s.take(k)[0] == s[0]);
        lemma_byte_len_monotone(s, 0, k);
        assert(s.take(0) =~= Seq::<char>::empty());
    }
}

fn width_of(c: char) -> (r: usize)
    ensures
        r == width(c),
{
    let n: u32 = c as u32;
    if n < 0x80 {
        1
    } else if n < 0x800 {
        2
    } else if n < 0x10000 {
        3
    } else {
        4
    }
}

pub(crate) fn chars_before(v: &Vec<char>, b: usize) -> (r: usize)
    requires
        is_boundary(v@, b as int),
    ensures
        r == char_pos(v@, b as int),
        r <= v@.len(),
{
    let ghost k = char_pos(v@, b as int);
    let mut total: usize = 0;
    let mut i: usize = 0;
    assert(v@.take(0) =~= Seq::<char>::empty());
    assert(byte_len(Seq::<char>::empty()) == 0);
    while i < v.len() && total < b
        invariant
            0 <= i <= k <= v@.len(),
            byte_len(v@.take(k)) == b,
            total == byte_len(v@.take(i as int)),
        decreases v@.len() - i,
    {
        proof {
            if i == k {
                assert(false);
            }
            lemma_byte_len_take(v@, i as int);
            lemma_byte_len_monotone(v@, i + 1, k);
        }
        total = total + width_of(v[i]);
        i += 1;
    }
    proof {
        if i < k {
            lemma_byte_len_monotone(v@, i as int, k);
        }
    }
    i
}

// ---------------------------------------------------------------------------
// Matching
// ---------------------------------------------------------------------------

/// The names among the first `n` that begin with `token`.
pub open spec fn matching(names: Seq<Seq<char>>, token: Seq<char>, n: int) -> Seq<Seq<char>>
    decreases n,
{
    if n <= 0 {
        Seq::empty()
    } else if starts_with(names[n - 1], token) {
        matching(names, token, n - 1).push(names[n - 1])
    } else {
        matching(names, token, n - 1)
    }
}

/// The commands that begin with `token`.
pub open spec fn hits(t: CommandTable, token: Seq<char>) -> Seq<Seq<char>> {
    matching(views(t.names@), token, t.names@.len() as int)
}

/// The longest text that both begin with.
pub open spec fn common_prefix(a: Seq<char>, b: Seq<char>) -> Seq<char>
    decreases a.len(),
{
    if a.len() == 0 || b.len() == 0 || a[0] != b[0] {
        Seq::empty()
    } else {
        seq![a[0]] + common_prefix(a.drop_first(), b.drop_first())
    }
}

/// The longest text that the first `n` of some texts begin with.
pub open spec fn common_prefix_of(s: Seq<Seq<char>>, n: int) -> Seq<char>
    decreases n,
{
    if n <= 0 {
        Seq::empty()
    } else if n == 1 {
        s[0]
    } else {
        common_prefix(common_prefix_of(s, n - 1), s[n - 1])
    }
}

/// The first word of a text, or nothing.
pub open spec fn first_token(s: Seq<char>) -> Seq<char> {
    if words(s).len() > 0 {
        words(s)[0]
    } else {
        Seq::empty()
    }
}

/// The commands that begin with the given text.
pub fn matches(table: &CommandTable, token: &Vec<char>) -> (r: Vec<String>)
    ensures
        views(r@) == hits(*table, token@),
{
    let ghost names = views(table.names@);
    let mut r: Vec<String> = Vec::new();
    let mut i: usize = 0;
    assert(views(r@) =~= Seq::<Seq<char>>::empty());
    while i < table.names.len()
        invariant
            i <= table.names@.len(),
            names == views(table.names@),
            views(r@) == matching(names, token@, i as int),
        decreases table.names@.len() - i,
    {
        assert(names[i as int] == table.names@[i as int]@);
        if match_at(&chars_of(table.names[i].as_str()), token, 0) {
            let s = table.names[i].clone();
            proof {
                lemma_views_push(r@, s);
            }
            r.push(s);
        }
        i += 1;
    }
    r
}

fn common(a: &Vec<char>, b: &Vec<char>) -> (r: Vec<char>)
    ensures
        r@ == common_prefix(a@, b@),
{
    let mut i: usize = 0;
    assert(a@.skip(0) =~= a@);
    assert(b@.skip(0) =~= b@);
    assert(a@.take(0) + common_prefix(a@, b@) =~= common_prefix(a@, b@));
    while i < a.len() && i < b.len() && a[i] == b[i]
        invariant
            i <= a@.len(),
            i <= b@.len(),
            common_prefix(a@, b@) == a@.take(i as int) + common_prefix(
                a@.skip(i as int),
                b@.skip(i as int),
            ),
        decreases a@.len() - i,
    {
        assert(a@.skip(i as int).drop_first() =~= a@.skip(i + 1));
        assert(b@.skip(i as int).drop_first() =~= b@.skip(i + 1));
        assert(a@.take(i as int) + (seq![a@[i as int]] + common_prefix(a@.skip(i + 1), b@.skip(i + 1)))
            =~= a@.take(i + 1) + common_prefix(a@.skip(i + 1), b@.skip(i + 1)));
        i += 1;
    }
    let r = slice_chars(a, 0, i);
    assert(r@ =~= a@.take(i as int) + Seq::<char>::empty());
    r
}

/// The longest text that all of the given ones begin with.
pub fn longest_common_prefix(names: &Vec<String>) -> (r: String)
    ensures
        r@ == common_prefix_of(views(names@), names@.len() as int),
{
    if names.len() == 0 {
        return String::new();
    }
    let ghost all = views(names@);
    let mut acc = chars_of(names[0].as_str());
    let mut i: usize = 1;
    assert(all[0] == names@[0]@);
    while i < names.len()
        invariant
            1 <= i <= names@.len(),
            all == views(names@),
            acc@ == common_prefix_of(all, i as int),
        decreases names@.len() - i,
    {
        assert(all[i as int] == names@[i as int]@);
        acc = common(&acc, &chars_of(names[i].as_str()));
        i += 1;
    }
    string_from(&acc)
}

fn token_of(v: &Vec<char>) -> (r: Vec<char>)
    ensures
        r@ == first_token(v@),
{
    let ws = words_of(v);
    assert(deep(ws@).len() == ws@.len());
    if ws.len() > 0 {
        let w = slice_chars(&ws[0], 0, ws[0].len());
        assert(w@ =~= ws@[0]@);
        assert(deep(ws@)[0] == ws@[0]@);
        w
    } else {
        let w: Vec<char> = Vec::new();
        assert(w@ =~= Seq::<char>::empty());
        w
    }
}

// ---------------------------------------------------------------------------
// The line
// ---------------------------------------------------------------------------

impl CommandLine {
    /// The cursor stands where a character begins, or at the end.
    pub open spec fn well_formed(self) -> bool {
        is_boundary(self.buffer@, self.cursor as int)
    }

    /// The cursor's position in characters.
    pub open spec fn pos(self) -> int {
        char_pos(self.buffer@, self.cursor as int)
    }

    /// The line with the cursor before the character at position `k`.
    pub open spec fn at(self, k: int) -> Self {
        CommandLine { cursor: byte_len(self.buffer@.take(k)) as usize, ..self }
    }

    /// The line after a step to the left.
    pub open spec fn stepped_left(self) -> Self {
        if self.pos() > 0 {
            self.at(self.pos() - 1)
        } else {
            self
        }
    }

    /// The line after a step to the right.
    pub open spec fn stepped_right(self) -> Self {
        if self.pos() < self.buffer@.len() {
            self.at(self.pos() + 1)
        } else {
            self
        }
    }

    /// The line is `before` with `c` typed at the cursor.
    pub open spec fn is_typed(self, before: Self, c: char) -> bool {
        &&& self.buffer@ == before.buffer@.insert(before.pos(), c)
        &&& self.pos() == before.pos() + 1
        &&& self.cursor == before.cursor + width(c)
        &&& self.status is None
        &&& !self.tab_armed
    }

    /// The line is `before` without the character before the cursor.
    pub open spec fn is_erased(self, before: Self) -> bool {
        &&& self.buffer@ == before.buffer@.remove(before.pos() - 1)
        &&& self.pos() == before.pos() - 1
        &&& self.cursor == before.cursor - width(before.buffer@[before.pos() - 1])
        &&& self.status is None
        &&& !self.tab_armed
    }

    /// An empty line.
    pub fn new() -> (r: Self)
        ensures
            r.buffer@ == Seq::<char>::empty(),
            r.cursor == 0,
            r.status is None,
            !r.tab_armed,
            r.well_formed(),
    {
        let r = CommandLine { buffer: String::new(), cursor: 0, status: None, tab_armed: false };
        proof {
            assert(r.buffer@.take(0) =~= Seq::<char>::empty());
            assert(byte_len(Seq::<char>::empty()) == 0);
        }
        r
    }

    /// Types a character at the cursor.
    pub fn insert_char(&mut self, c: char)
        requires
            old(self).well_formed(),
        ensures
            final(self).well_formed(),
            final(self).is_typed(*old(self), c),
    {
        let mut v = chars_of(self.buffer.as_str());
        let k: usize = chars_before(&v, self.cursor);
        let ghost before = v@;
        v.insert(k, c);
        proof {
            assert(v@.take(k as int) =~= before.take(k as int));
            lemma_byte_len_take(v@, k as int);
            lemma_char_pos_of_prefix(v@, k + 1);
        }
        self.buffer = string_from(&v);
        let total: usize = byte_count(self.buffer.as_str());
        proof {
            lemma_byte_len_monotone(v@, k + 1, v@.len() as int);
            assert(v@.take(v@.len() as int) =~= v@);
            assert(self.cursor + width(c) <= total);
        }
        self.cursor = self.cursor + width_of(c);
        self.tab_armed = false;
        self.status = None;
    }

    /// Deletes the character before the cursor; false when there is none.
    pub fn backspace(&mut self) -> (r: bool)
        requires
            old(self).well_formed(),
        ensures
            final(self).well_formed(),
            r == (old(self).cursor > 0),
            !r ==> *final(self) == *old(self),
            r ==> final(self).is_erased(*old(self)),
    {
        if self.cursor == 0 {
            return false;
        }
        let mut v = chars_of(self.buffer.as_str());
        let k: usize = chars_before(&v, self.cursor);
        let ghost before = v@;
        proof {
            if k == 0 {
                assert(before.take(0) =~= Seq::<char>::empty());
                assert(byte_len(Seq::<char>::empty()) == 0);
            }
            lemma_byte_len_take(before, k - 1);
            lemma_byte_len_monotone(before, 0, k - 1);
        }
        let c = v.remove(k - 1);
        proof {
            assert(v@.take(k - 1) =~= before.take(k - 1));
            lemma_char_pos_of_prefix(v@, k - 1);
        }
        self.buffer = string_from(&v);
        self.cursor = self.cursor - width_of(c);
        self.tab_armed = false;
        self.status = None;
        true
    }

    /// Moves the cursor one character to the left.
    pub fn cursor_left(&mut self)
        requires
            old(self).well_formed(),
        ensures
            final(self).well_formed(),
            *final(self) == old(self).stepped_left(),
            final(self).pos() == if old(self).pos() > 0 {
                old(self).pos() - 1
            } else {
                0
            },
    {
        if self.cursor == 0 {
            return;
        }
        let v = chars_of(self.buffer.as_str());
        let k: usize = chars_before(&v, self.cursor);
        proof {
            if k == 0 {
                assert(v@.take(0) =~= Seq::<char>::empty());
                assert(byte_len(Seq::<char>::empty()) == 0);
            }
            lemma_byte_len_take(v@, k - 1);
            lemma_byte_len_monotone(v@, 0, k - 1);
            lemma_char_pos_of_prefix(v@, k - 1);
        }
        self.cursor = self.cursor - width_of(v[k - 1]);
    }

    /// Moves the cursor one character to the right.
    pub fn cursor_right(&mut self)
        requires
            old(self).well_formed(),
        ensures
            final(self).well_formed(),
            *final(self) == old(self).stepped_right(),
            final(self).pos() == if old(self).pos() < old(self).buffer@.len() {
                old(self).pos() + 1
            } else {
                old(self).pos()
            },
    {
        let v = chars_of(self.buffer.as_str());
        let k: usize = chars_before(&v, self.cursor);
        if k >= v.len() {
            return;
        }
        let total: usize = byte_count(self.buffer.as_str());
        proof {
            lemma_byte_len_take(v@, k as int);
            lemma_char_pos_of_prefix(v@, k + 1);
            lemma_byte_len_monotone(v@, k + 1, v@.len() as int);
            assert(v@.take(v@.len() as int) =~= v@);
            assert(byte_len(v@) == total);
        }
        self.cursor = self.cursor + width_of(v[k]);
    }

    /// Moves the cursor to the start.
    pub fn cursor_home(&mut self)
        ensures
            final(self).well_formed(),
            final(self).pos() == 0,
            *final(self) == (CommandLine { cursor: 0, ..*old(self) }),
    {
        self.cursor = 0;
        proof {
            assert(self.buffer@.take(0) =~= Seq::<char>::empty());
            assert(byte_len(Seq::<char>::empty()) == 0);
        }
    }

    /// Moves the cursor to the end.
    pub fn cursor_end(&mut self)
        ensures
            final(self).well_formed(),
            final(self).pos() == old(self).buffer@.len(),
            final(self).cursor == byte_len(old(self).buffer@),
            final(self).buffer == old(self).buffer,
            final(self).status == old(self).status,
            final(self).tab_armed == old(self).tab_armed,
    {
        self.cursor = byte_count(self.buffer.as_str());
        proof {
            lemma_char_pos_of_prefix(self.buffer@, self.buffer@.len() as int);
            assert(self.buffer@.take(self.buffer@.len() as int) =~= self.buffer@);
        }
    }
}

proof fn lemma_scalar_len(c: char)
    ensures
        vstd::utf8::encode_scalar(c as u32).len() == width(c),
{
    vstd::utf8::char_is_scalar(c);
}

proof fn lemma_encoded_len(s: Seq<char>)
    ensures
        vstd::utf8::encode_utf8(s).len() == byte_len(s),
    decreases s.len(),
{
    if s.len() > 0 {
        lemma_encoded_len(s.drop_first());
        lemma_scalar_len(s[0]);
    }
}

/// How many bytes a text takes in UTF-8.
fn byte_count(s: &str) -> (r: usize)
    ensures
        r == byte_len(s@),
{
    proof {
        lemma_encoded_len(s@);
    }
    s.as_bytes().len()
}

// ---------------------------------------------------------------------------
// Completion
// ---------------------------------------------------------------------------

/// What Tab does with the line: nothing after a space that follows a word, and
/// otherwise by the commands that begin with the first word.
pub open spec fn tab_outcome(cl: CommandLine, t: CommandTable) -> TabView {
    let token = first_token(cl.buffer@);
    let found = hits(t, token);
    let lcp = common_prefix_of(found, found.len() as int);
    if cl.buffer@.contains(' ') && token.len() > 0 {
        TabView::NoOp
    } else if found.len() == 0 {
        TabView::NoMatch
    } else if found.len() == 1 {
        TabView::Completed(found[0])
    } else if lcp.len() > token.len() || !cl.tab_armed {
        TabView::ExtendedPrefix(lcp)
    } else {
        TabView::ShowMatches(found)
    }
}

/// The buffer after Tab.
pub open spec fn tab_buffer(cl: CommandLine, t: CommandTable) -> Seq<char> {
    let token = first_token(cl.buffer@);
    match tab_outcome(cl, t) {
        TabView::Completed(full) => full + " "@,
        TabView::ExtendedPrefix(lcp) => if lcp.len() > token.len() {
            lcp
        } else {
            cl.buffer@
        },
        _ => cl.buffer@,
    }
}

/// Tab writes a longer text into the buffer and moves the cursor to its end.
pub open spec fn tab_rewrites(cl: CommandLine, t: CommandTable) -> bool {
    match tab_outcome(cl, t) {
        TabView::Completed(_) => true,
        TabView::ExtendedPrefix(lcp) => lcp.len() > first_token(cl.buffer@).len(),
        _ => false,
    }
}

/// The status after Tab, given the one before.
pub open spec fn tab_status_ok(before: CommandLine, after: CommandLine, o: TabView) -> bool {
    match o {
        TabView::NoMatch => after.status matches Some(StatusLine::Failed(m)) && m@ == "no match"@,
        TabView::ShowMatches(found) => after.status matches Some(StatusLine::Done(m)) && m@ == join(
            found,
            "  "@,
        ),
        _ => after.status == before.status,
    }
}

/// Whether the next Tab shows the matches.
pub open spec fn tab_arms(cl: CommandLine, o: TabView) -> bool {
    match o {
        TabView::Completed(_) | TabView::ShowMatches(_) => false,
        TabView::ExtendedPrefix(_) => true,
        _ => cl.tab_armed,
    }
}

/// The names among the first `n` that are longer than `len` characters.
pub open spec fn longer(names: Seq<Seq<char>>, len: int, n: int) -> Seq<Seq<char>>
    decreases n,
{
    if n <= 0 {
        Seq::empty()
    } else if names[n - 1].len() > len {
        longer(names, len, n - 1).push(names[n - 1])
    } else {
        longer(names, len, n - 1)
    }
}

/// The commands of which `token` is a strict prefix.
pub open spec fn extensions(t: CommandTable, token: Seq<char>) -> Seq<Seq<char>> {
    longer(hits(t, token), token.len() as int, hits(t, token).len() as int)
}

/// The dim suffix shown after the cursor.
pub open spec fn ghost_text(cl: CommandLine, t: CommandTable) -> Seq<char> {
    let token = first_token(cl.buffer@);
    let found = extensions(t, token);
    if cl.buffer@.contains(' ') || found.len() != 1 {
        Seq::empty()
    } else {
        found[0].skip(token.len() as int)
    }
}

proof fn lemma_longer(names: Seq<Seq<char>>, len: int, n: int, k: int)
    requires
        0 <= n <= names.len(),
        0 <= k < longer(names, len, n).len(),
    ensures
        longer(names, len, n)[k].len() > len,
        names.contains(longer(names, len, n)[k]),
    decreases n,
{
    if names[n - 1].len() > len && k == longer(names, len, n).len() - 1 {
        assert(names[n - 1] == longer(names, len, n)[k]);
    } else {
        lemma_longer(names, len, n - 1, k);
    }
}

proof fn lemma_matching_from_table(names: Seq<Seq<char>>, token: Seq<char>, n: int, k: int)
    requires
        0 <= n <= names.len(),
        0 <= k < matching(names, token, n).len(),
    ensures
        names.contains(matching(names, token, n)[k]),
        starts_with(matching(names, token, n)[k], token),
    decreases n,
{
    if starts_with(names[n - 1], token) && k == matching(names, token, n).len() - 1 {
        assert(names[n - 1] == matching(names, token, n)[k]);
    } else {
        lemma_matching_from_table(names, token, n - 1, k);
    }
}

proof fn lemma_common_prefix(a: Seq<char>, b: Seq<char>)
    ensures
        starts_with(a, common_prefix(a, b)),
        starts_with(b, common_prefix(a, b)),
        common_prefix(a, b).len() <= a.len(),
    decreases a.len(),
{
    let p = common_prefix(a, b);
    if a.len() == 0 || b.len() == 0 || a[0] != b[0] {
        assert(a.subrange(0, 0) =~= p);
        assert(b.subrange(0, 0) =~= p);
    } else {
        lemma_common_prefix(a.drop_first(), b.drop_first());
        let q = common_prefix(a.drop_first(), b.drop_first());
        let n = q.len() as int;
        assert(a.drop_first().subrange(0, n) == q);
        assert(b.drop_first().subrange(0, n) == q);
        assert(a.subrange(0, n + 1) =~= seq![a[0]] + a.drop_first().subrange(0, n));
        assert(b.subrange(0, n + 1) =~= seq![b[0]] + b.drop_first().subrange(0, n));
        assert(p.len() == n + 1);
    }
}

/// The common prefix begins the first text.
proof fn lemma_common_prefix_of_first(s: Seq<Seq<char>>, n: int)
    requires
        0 < n <= s.len(),
    ensures
        starts_with(s[0], common_prefix_of(s, n)),
    decreases n,
{
    if n == 1 {
        assert(s[0].subrange(0, s[0].len() as int) =~= s[0]);
    } else {
        lemma_common_prefix_of_first(s, n - 1);
        let p = common_prefix_of(s, n - 1);
        lemma_common_prefix(p, s[n - 1]);
        let q = common_prefix_of(s, n);
        assert(s[0].subrange(0, q.len() as int) =~= p.subrange(0, q.len() as int));
    }
}

impl CommandLine {
    fn set_text(&mut self, text: String)
        ensures
            final(self).well_formed(),
            final(self).buffer == text,
            final(self).cursor == byte_len(text@),
            final(self).pos() == text@.len(),
            final(self).status == old(self).status,
            final(self).tab_armed == old(self).tab_armed,
    {
        self.buffer = text;
        self.cursor_end();
    }

    /// Handles Tab: completes the command's name as far as it is determined.
    pub fn tab(&mut self, table: &CommandTable) -> (r: TabOutcome)
        requires
            old(self).well_formed(),
        ensures
            final(self).well_formed(),
            r@ == tab_outcome(*old(self), *table),
            final(self).buffer@ == tab_buffer(*old(self), *table),
            if tab_rewrites(*old(self), *table) {
                final(self).cursor == byte_len(final(self).buffer@)
            } else {
                final(self).cursor == old(self).cursor
            },
            tab_status_ok(*old(self), *final(self), r@),
            final(self).tab_armed == tab_arms(*old(self), r@),
    {
        let v = chars_of(self.buffer.as_str());
        let token = token_of(&v);
        if holds_char(&v, ' ') && token.len() > 0 {
            return TabOutcome::NoOp;
        }
        let found = matches(table, &token);
        let ghost all = views(found@);
        assert(all.len() == found@.len());
        if found.len() == 0 {
            self.status = Some(StatusLine::Failed(String::from_str("no match")));
            return TabOutcome::NoMatch;
        }
        assert(all[0] == found@[0]@);
        if found.len() == 1 {
            let full = found[0].clone();
            let text = concat2(full.as_str(), " ");
            proof {
                reveal_strlit(" ");
                assert(text@ =~= full@.push(' '));
            }
            self.set_text(text);
            self.tab_armed = false;
            return TabOutcome::Completed(full);
        }
        let lcp = longest_common_prefix(&found);
        if lcp.as_str().unicode_len() > token.len() {
            self.set_text(lcp.clone());
            self.tab_armed = true;
            TabOutcome::ExtendedPrefix(lcp)
        } else if self.tab_armed {
            self.status = Some(StatusLine::Done(join_strings(&found, "  ")));
            self.tab_armed = false;
            TabOutcome::ShowMatches(found)
        } else {
            self.tab_armed = true;
            TabOutcome::ExtendedPrefix(lcp)
        }
    }

    /// The dim suffix shown after the cursor: what is missing of the one command
    /// of which the typed word is a strict prefix.
    pub fn ghost(&self, table: &CommandTable) -> (r: String)
        ensures
            r@ == ghost_text(*self, *table),
    {
        let v = chars_of(self.buffer.as_str());
        if holds_char(&v, ' ') {
            return String::new();
        }
        let token = token_of(&v);
        let all = matches(table, &token);
        let ghost names = views(all@);
        let mut found: Vec<Vec<char>> = Vec::new();
        let mut i: usize = 0;
        assert(deep(found@) =~= Seq::<Seq<char>>::empty());
        while i < all.len()
            invariant
                i <= all@.len(),
                names == views(all@),
                deep(found@) == longer(names, token@.len() as int, i as int),
            decreases all@.len() - i,
        {
            let name = chars_of(all[i].as_str());
            assert(names[i as int] == name@);
            if name.len() > token.len() {
                let ghost before = found@;
                found.push(name);
                assert(deep(found@) =~= deep(before).push(name@));
            }
            i += 1;
        }
        assert(deep(found@).len() == found@.len());
        if found.len() != 1 {
            return String::new();
        }
        let full = &found[0];
        assert(deep(found@)[0] == full@);
        proof {
            lemma_longer(names, token@.len() as int, names.len() as int, 0);
        }
        let r = string_of(full, token.len(), full.len());
        assert(r@ =~= full@.skip(token@.len() as int));
        r
    }
}

// ---------------------------------------------------------------------------
// Laws
// ---------------------------------------------------------------------------

/// Typing a character, however many bytes it takes, and deleting it again restores
/// buffer and cursor.
pub proof fn backspace_undoes_insert(
    before: CommandLine,
    typed: CommandLine,
    after: CommandLine,
    c: char,
)
    requires
        before.well_formed(),
        typed.is_typed(before, c),
        after.is_erased(typed),
    ensures
        typed.cursor > 0,
        after.buffer@ == before.buffer@,
        after.cursor == before.cursor,
        after.status is None,
        !after.tab_armed,
{
    let k = before.pos();
    assert(typed.buffer@[k] == c);
    assert(before.buffer@.insert(k, c).remove(k) =~= before.buffer@);
}

/// A step to the left and one to the right cancel out where there is a character to
/// step over, and the ends of the line are not left.
pub proof fn cursor_steps_cancel_out(cl: CommandLine)
    requires
        cl.well_formed(),
    ensures
        cl.cursor > 0 ==> cl.stepped_left().stepped_right() == cl,
        cl.cursor < byte_len(cl.buffer@) <= usize::MAX ==> cl.stepped_right().stepped_left() == cl,
        cl.cursor == 0 ==> cl.stepped_left() == cl,
        cl.cursor == byte_len(cl.buffer@) ==> cl.stepped_right() == cl,
{
    let s = cl.buffer@;
    let k = cl.pos();
    assert(s.take(0) =~= Seq::<char>::empty());
    assert(s.take(s.len() as int) =~= s);
    if k > 0 {
        lemma_byte_len_take(s, k - 1);
        lemma_byte_len_monotone(s, 0, k - 1);
        lemma_char_pos_of_prefix(s, k - 1);
    }
    if k < s.len() {
        lemma_byte_len_take(s, k);
        lemma_byte_len_monotone(s, k + 1, s.len() as int);
        lemma_char_pos_of_prefix(s, k + 1);
    }
}

/// A suffix that is shown completes the first word to the only command of which it
/// is a strict prefix.
pub proof fn a_shown_suffix_completes(cl: CommandLine, t: CommandTable)
    requires
        ghost_text(cl, t).len() > 0,
    ensures
        extensions(t, first_token(cl.buffer@)) == seq![
            first_token(cl.buffer@) + ghost_text(cl, t),
        ],
{
    let token = first_token(cl.buffer@);
    let all = hits(t, token);
    let found = extensions(t, token);
    lemma_longer(all, token.len() as int, all.len() as int, 0);
    let k = choose|k: int| 0 <= k < all.len() && all[k] == found[0];
    lemma_matching_from_table(views(t.names@), token, t.names@.len() as int, k);
    assert(found[0].subrange(0, token.len() as int) == token);
    assert(found[0] =~= token + found[0].skip(token.len() as int));
    assert(found =~= seq![found[0]]);
}

/// Completion only lists commands of the table that begin with the word.
pub proof fn matches_begin_with_the_word(t: CommandTable, token: Seq<char>, k: int)
    requires
        0 <= k < hits(t, token).len(),
    ensures
        views(t.names@).contains(hits(t, token)[k]),
        starts_with(hits(t, token)[k], token),
{
    lemma_matching_from_table(views(t.names@), token, t.names@.len() as int, k);
}

} // verus!
