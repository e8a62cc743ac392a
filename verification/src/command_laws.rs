//! What typing and completion do in the command bar.
use crate::command::{
    byte_len, common_prefix, common_prefix_of, ghost_text, hits, lemma_byte_len_monotone,
    lemma_char_pos_of_prefix, longer, matching, tab_arms, tab_buffer, tab_outcome, tab_rewrites,
    tab_status_ok, CommandLine, CommandTable, StatusLine, TabView,
};
use crate::footer::{binding_spans, bindings, command_spans};
use crate::search::{join, starts_with};
use crate::style::Color;
use crate::text::{views, words};
use crate::workspace::Focus;
use vstd::prelude::*;

verus! {

// ---------------------------------------------------------------------------
// Completion
// ---------------------------------------------------------------------------

/// The names in the table that begin with `word`, in order.
pub open spec fn candidates(t: CommandTable, word: Seq<char>) -> Seq<Seq<char>> {
    views(t.names@).filter(|name: Seq<char>| word.is_prefix_of(name))
}

/// The first word of the line.
pub open spec fn typed_word(cl: CommandLine) -> Seq<char> {
    if words(cl.buffer@).len() > 0 {
        words(cl.buffer@)[0]
    } else {
        Seq::empty()
    }
}

/// The line goes on behind the first word.
pub open spec fn goes_on(cl: CommandLine) -> bool {
    cl.buffer@.contains(' ') && typed_word(cl).len() > 0
}

proof fn lemma_matching(names: Seq<Seq<char>>, word: Seq<char>, n: int)
    requires
        0 <= n <= names.len(),
    ensures
        matching(names, word, n) == names.take(n).filter(
            |name: Seq<char>| word.is_prefix_of(name),
        ),
    decreases n,
{
    reveal(Seq::filter);
    if n > 0 {
        lemma_matching(names, word, n - 1);
        assert(names.take(n).drop_last() =~= names.take(n - 1));
        assert(names.take(n).last() == names[n - 1]);
        assert(starts_with(names[n - 1], word) == word.is_prefix_of(names[n - 1]));
    } else {
        assert(names.take(0).len() == 0);
    }
}

proof fn lemma_hits(t: CommandTable, word: Seq<char>)
    ensures
        hits(t, word) == candidates(t, word),
{
    let names = views(t.names@);
    lemma_matching(names, word, names.len() as int);
    assert(names.take(names.len() as int) =~= names);
}

proof fn lemma_common(a: Seq<char>, b: Seq<char>, q: Seq<char>)
    ensures
        common_prefix(a, b).is_prefix_of(a),
        common_prefix(a, b).is_prefix_of(b),
        q.is_prefix_of(a) && q.is_prefix_of(b) ==> q.is_prefix_of(common_prefix(a, b)),
    decreases a.len(),
{
    let p = common_prefix(a, b);
    if a.len() == 0 || b.len() == 0 || a[0] != b[0] {
        assert(p =~= a.subrange(0, 0));
        assert(p =~= b.subrange(0, 0));
        if q.is_prefix_of(a) && q.is_prefix_of(b) && q.len() > 0 {
            assert(q[0] == a[0] && q[0] == b[0]);
        }
        if q.len() == 0 {
            assert(q =~= p.subrange(0, 0));
        }
    } else {
        let x = a.drop_first();
        let y = b.drop_first();
        lemma_common(x, y, q.drop_first());
        let r = common_prefix(x, y);
        assert(p =~= seq![a[0]] + r);
        assert forall|i: int| 0 <= i < p.len() implies p[i] == a[i] && p[i] == b[i] by {
            if i > 0 {
                assert(r[i - 1] == x.subrange(0, r.len() as int)[i - 1]);
                assert(r[i - 1] == y.subrange(0, r.len() as int)[i - 1]);
            }
        }
        assert(p =~= a.subrange(0, p.len() as int));
        assert(p =~= b.subrange(0, p.len() as int));
        if q.is_prefix_of(a) && q.is_prefix_of(b) {
            if q.len() == 0 {
                assert(q =~= p.subrange(0, 0));
            } else {
                let s = q.drop_first();
                assert forall|i: int| 0 <= i < s.len() implies s[i] == x[i] && s[i] == y[i] by {
                    assert(q[i + 1] == a.subrange(0, q.len() as int)[i + 1]);
                    assert(q[i + 1] == b.subrange(0, q.len() as int)[i + 1]);
                }
                assert(s =~= x.subrange(0, s.len() as int));
                assert(s =~= y.subrange(0, s.len() as int));
                assert(s.is_prefix_of(r));
                assert(q[0] == a[0]);
                assert forall|i: int| 0 <= i < q.len() implies q[i] == p[i] by {
                    if i > 0 {
                        assert(s[i - 1] == r.subrange(0, s.len() as int)[i - 1]);
                    }
                }
                assert(q =~= p.subrange(0, q.len() as int));
            }
        }
    }
}

proof fn lemma_prefix_transitive(a: Seq<char>, b: Seq<char>, c: Seq<char>)
    requires
        a.is_prefix_of(b),
        b.is_prefix_of(c),
    ensures
        a.is_prefix_of(c),
{
    assert forall|i: int| 0 <= i < a.len() implies a[i] == c[i] by {
        assert(a[i] == b.subrange(0, a.len() as int)[i]);
        assert(b[i] == c.subrange(0, b.len() as int)[i]);
    }
    assert(a =~= c.subrange(0, a.len() as int));
}

/// The completed part is the longest text that all matches begin with.
pub proof fn the_common_part_is_the_longest(s: Seq<Seq<char>>, n: int, q: Seq<char>)
    requires
        0 < n <= s.len(),
    ensures
        forall|k: int| 0 <= k < n ==> common_prefix_of(s, n).is_prefix_of(#[trigger] s[k]),
        (forall|k: int| 0 <= k < n ==> q.is_prefix_of(#[trigger] s[k])) ==> q.is_prefix_of(
            common_prefix_of(s, n),
        ),
    decreases n,
{
    if n == 1 {
        assert(s[0].subrange(0, s[0].len() as int) =~= s[0]);
    } else {
        the_common_part_is_the_longest(s, n - 1, q);
        let p = common_prefix_of(s, n - 1);
        let r = common_prefix_of(s, n);
        lemma_common(p, s[n - 1], q);
        assert forall|k: int| 0 <= k < n implies r.is_prefix_of(#[trigger] s[k]) by {
            if k < n - 1 {
                assert(p.is_prefix_of(s[k]));
                lemma_prefix_transitive(r, p, s[k]);
            }
        }
        if forall|k: int| 0 <= k < n ==> q.is_prefix_of(#[trigger] s[k]) {
            assert(q.is_prefix_of(s[n - 1]));
        }
    }
}

/// The only command that begins with the word is completed, with a space behind it.
pub proof fn a_single_match_is_completed(
    cl: CommandLine,
    t: CommandTable,
    after: CommandLine,
    name: Seq<char>,
)
    requires
        !goes_on(cl),
        candidates(t, typed_word(cl)) == seq![name],
    ensures
        tab_outcome(cl, t) == TabView::Completed(name),
        tab_buffer(cl, t) == name + " "@,
        tab_rewrites(cl, t),
        !tab_arms(cl, tab_outcome(cl, t)),
        tab_status_ok(cl, after, tab_outcome(cl, t)) ==> after.status == cl.status,
{
    lemma_hits(t, typed_word(cl));
}

/// Where no command begins with the word, the line stays and says so.
pub proof fn no_match_is_told(cl: CommandLine, t: CommandTable, after: CommandLine)
    requires
        !goes_on(cl),
        candidates(t, typed_word(cl)).len() == 0,
    ensures
        tab_outcome(cl, t) is NoMatch,
        tab_buffer(cl, t) == cl.buffer@,
        !tab_rewrites(cl, t),
        tab_status_ok(cl, after, tab_outcome(cl, t)) ==> after.status is Some && (
        after.status.unwrap() matches StatusLine::Failed(m) && m@ == "no match"@),
{
    lemma_hits(t, typed_word(cl));
}

/// Of several matches the common part is filled in as far as it goes. Where it goes no
/// further, a first Tab only arms the second, which lists the matches.
pub proof fn several_matches_share_their_beginning(
    cl: CommandLine,
    t: CommandTable,
    after: CommandLine,
    shared: Seq<char>,
)
    requires
        !goes_on(cl),
        candidates(t, typed_word(cl)).len() > 1,
        forall|k: int|
            0 <= k < candidates(t, typed_word(cl)).len() ==> shared.is_prefix_of(
                #[trigger] candidates(t, typed_word(cl))[k],
            ),
        forall|q: Seq<char>|
            (forall|k: int|
                0 <= k < candidates(t, typed_word(cl)).len() ==> q.is_prefix_of(
                    #[trigger] candidates(t, typed_word(cl))[k],
                )) ==> #[trigger] q.len() <= shared.len(),
    ensures
        shared.len() > typed_word(cl).len() ==> tab_outcome(cl, t) == TabView::ExtendedPrefix(
            shared,
        ) && tab_buffer(cl, t) == shared && tab_rewrites(cl, t),
        shared.len() <= typed_word(cl).len() ==> tab_buffer(cl, t) == cl.buffer@ && !tab_rewrites(
            cl,
            t,
        ),
        shared.len() <= typed_word(cl).len() && !cl.tab_armed ==> tab_arms(
            cl,
            tab_outcome(cl, t),
        ) && (tab_status_ok(cl, after, tab_outcome(cl, t)) ==> after.status == cl.status),
        shared.len() <= typed_word(cl).len() && cl.tab_armed ==> tab_outcome(cl, t)
            == TabView::ShowMatches(candidates(t, typed_word(cl))) && !tab_arms(
            cl,
            tab_outcome(cl, t),
        ) && (tab_status_ok(cl, after, tab_outcome(cl, t)) ==> after.status is Some && (
        after.status.unwrap() matches StatusLine::Done(m) && m@ == join(
            candidates(t, typed_word(cl)),
            "  "@,
        ))),
{
    let found = candidates(t, typed_word(cl));
    lemma_hits(t, typed_word(cl));
    let n = found.len() as int;
    let p = common_prefix_of(found, n);
    the_common_part_is_the_longest(found, n, shared);
    assert(p.len() <= shared.len());
    assert(shared.is_prefix_of(p));
    assert(shared =~= p);
}

/// Behind a word and a space Tab does nothing.
pub proof fn arguments_are_not_completed(cl: CommandLine, t: CommandTable, after: CommandLine)
    requires
        goes_on(cl),
    ensures
        tab_outcome(cl, t) is NoOp,
        tab_buffer(cl, t) == cl.buffer@,
        !tab_rewrites(cl, t),
        tab_status_ok(cl, after, tab_outcome(cl, t)) ==> after.status == cl.status,
{
}

proof fn lemma_longer_filter(names: Seq<Seq<char>>, len: int, n: int)
    requires
        0 <= n <= names.len(),
    ensures
        longer(names, len, n) == names.take(n).filter(|x: Seq<char>| x.len() > len),
    decreases n,
{
    reveal(Seq::filter);
    if n > 0 {
        lemma_longer_filter(names, len, n - 1);
        assert(names.take(n).drop_last() =~= names.take(n - 1));
        assert(names.take(n).last() == names[n - 1]);
    } else {
        assert(names.take(0).len() == 0);
    }
}

/// While one command alone goes on from the word, the rest of its name is shown; with
/// none or several, or behind a space, nothing is.
pub proof fn the_rest_of_the_only_match_is_shown(cl: CommandLine, t: CommandTable)
    ensures
        ({
            let word = typed_word(cl);
            let further = candidates(t, word).filter(|x: Seq<char>| x.len() > word.len());
            &&& !cl.buffer@.contains(' ') && further.len() == 1 ==> word + ghost_text(cl, t)
                == further[0]
            &&& further.len() != 1 ==> ghost_text(cl, t).len() == 0
            &&& cl.buffer@.contains(' ') ==> ghost_text(cl, t).len() == 0
        }),
{
    let word = typed_word(cl);
    let all = candidates(t, word);
    let further = all.filter(|x: Seq<char>| x.len() > word.len());
    lemma_hits(t, word);
    lemma_longer_filter(all, word.len() as int, all.len() as int);
    assert(all.take(all.len() as int) =~= all);
    if further.len() == 1 {
        broadcast use vstd::seq_lib::group_filter_ensures;

        assert(all.contains(further[0])) by {
            all.lemma_filter_contains_rev(|x: Seq<char>| x.len() > word.len(), further[0]);
        }
        views(t.names@).lemma_filter_contains_rev(
            |name: Seq<char>| word.is_prefix_of(name),
            further[0],
        );
        let k = choose|k: int| 0 <= k < all.len() && all[k] == further[0];
        assert(word.is_prefix_of(all[k]));
        assert(word + further[0].skip(word.len() as int) =~= further[0]);
    }
}

// ---------------------------------------------------------------------------
// Typing
// ---------------------------------------------------------------------------

/// A typed character stands where the cursor was, and the cursor behind it; all other
/// characters keep their order.
pub proof fn a_character_is_typed_at_the_cursor(before: CommandLine, after: CommandLine, c: char)
    requires
        before.well_formed(),
        after.is_typed(before, c),
    ensures
        ({
            let k = before.pos();
            &&& 0 <= k <= before.buffer@.len()
            &&& after.buffer@ == before.buffer@.take(k) + seq![c] + before.buffer@.skip(k)
            &&& after.pos() == k + 1
            &&& after.status is None
            &&& !after.tab_armed
        }),
{
    let k = before.pos();
    assert(before.buffer@.insert(k, c) =~= before.buffer@.take(k) + seq![c]
        + before.buffer@.skip(k));
}

/// Erasing takes the character before the cursor.
pub proof fn the_character_before_the_cursor_is_erased(before: CommandLine, after: CommandLine)
    requires
        before.well_formed(),
        before.pos() > 0,
        after.is_erased(before),
    ensures
        ({
            let k = before.pos();
            &&& after.buffer@ == before.buffer@.take(k - 1) + before.buffer@.skip(k)
            &&& after.pos() == k - 1
            &&& after.status is None
            &&& !after.tab_armed
        }),
{
    let k = before.pos();
    assert(before.buffer@.remove(k - 1) =~= before.buffer@.take(k - 1) + before.buffer@.skip(k));
}

/// A step moves the cursor by one character and changes nothing else.
pub proof fn a_step_moves_by_one_character(cl: CommandLine)
    requires
        cl.well_formed(),
        byte_len(cl.buffer@) <= usize::MAX,
    ensures
        cl.pos() > 0 ==> cl.stepped_left().pos() == cl.pos() - 1,
        cl.pos() < cl.buffer@.len() ==> cl.stepped_right().pos() == cl.pos() + 1,
        cl.stepped_left().buffer == cl.buffer,
        cl.stepped_right().buffer == cl.buffer,
        cl.stepped_left().status == cl.status,
        cl.stepped_right().status == cl.status,
{
    let s = cl.buffer@;
    let k = cl.pos();
    assert(s.take(s.len() as int) =~= s);
    assert(s.take(0) =~= Seq::<char>::empty());
    if k > 0 {
        lemma_byte_len_monotone(s, 0, k - 1);
        lemma_byte_len_monotone(s, k - 1, s.len() as int);
        lemma_char_pos_of_prefix(s, k - 1);
    }
    if k < s.len() {
        lemma_byte_len_monotone(s, 0, k + 1);
        lemma_byte_len_monotone(s, k + 1, s.len() as int);
        lemma_char_pos_of_prefix(s, k + 1);
    }
}

// ---------------------------------------------------------------------------
// The bar
// ---------------------------------------------------------------------------

/// The bar shows the line behind a colon, with a block at the cursor, and behind it how
/// the last command ended.
pub proof fn the_bar_shows_the_line(cl: CommandLine, t: CommandTable)
    requires
        cl.well_formed(),
    ensures
        ({
            let s = command_spans(cl, t);
            let k = cl.pos();
            &&& s[0].text == ":"@
            &&& k < cl.buffer@.len() ==> s[1].text + s[2].text + s[3].text == cl.buffer@
            &&& k == cl.buffer@.len() ==> s[1].text == cl.buffer@ && s[2].text == " "@
                && s[3].text.len() == 0
            &&& s[1].text.len() == k
            &&& s[2].text.len() == 1
            &&& s[2].style.reversed && !s[1].style.reversed && !s[3].style.reversed
            &&& s[4].text == ghost_text(cl, t) && s[4].style.fg == Some(Color::DarkGray)
            &&& cl.status is None ==> s.len() == 5
            &&& cl.status is Some ==> s.len() == 7
            &&& cl.status is Some && cl.status.unwrap() is Done ==> s[6].text == "✓ "@
                + cl.status.unwrap()->Done_0@ && s[6].style.fg == Some(Color::Green)
            &&& cl.status is Some && cl.status.unwrap() is Failed ==> s[6].text == "✗ "@
                + cl.status.unwrap()->Failed_0@ && s[6].style.fg == Some(Color::Red)
        }),
{
    reveal_strlit(" ");
    reveal_strlit("");
    let s = command_spans(cl, t);
    let k = cl.pos();
    if k < cl.buffer@.len() {
        assert(s[1].text + s[2].text + s[3].text =~= cl.buffer@);
    } else {
        assert(cl.buffer@.take(k) =~= cl.buffer@);
    }
}

/// The footer names the keys of the focused pane.
pub proof fn the_footer_names_the_panes_keys(focus: Focus)
    ensures
        focus == Focus::Sidebar ==> bindings(focus)[0] == ("j/k"@, "navigate"@)
            && bindings(focus)[1] == ("l/⏎"@, "open detail"@),
        focus == Focus::Detail ==> bindings(focus)[0] == ("j/k"@, "scroll"@)
            && bindings(focus)[1] == ("h/esc"@, "back"@),
        bindings(focus).len() == 9,
        bindings(focus)[3] == (":"@, "cmd"@),
        bindings(focus)[5] == ("r"@, "summarize"@),
        bindings(focus)[8] == ("q"@, "quit"@),
        binding_spans(bindings(focus), 9).len() == 26,
        binding_spans(bindings(focus), 9)[0].text == " "@ + "j/k"@ + " "@,
        binding_spans(bindings(focus), 9)[25].text == " "@ + "quit"@,
{
    reveal_with_fuel(binding_spans, 10);
}

} // verus!
