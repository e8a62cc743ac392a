//! Fitting text into a number of columns and lines.
use crate::search::join;
use crate::text::{
    chars_of, deep, lemma_views_push, lemma_word_not_empty, slice_chars, string_from, string_of,
    views, words, words_of,
};
use vstd::prelude::*;

verus! {

// ---------------------------------------------------------------------------
// Truncation
// ---------------------------------------------------------------------------

/// At most `max` characters, and an ellipsis after them when there are more.
pub open spec fn truncated_after(s: Seq<char>, max: int) -> Seq<char> {
    if s.len() <= max {
        s
    } else {
        s.take(max).push('…')
    }
}

/// At most `max` characters, the last of them an ellipsis when there are more.
pub open spec fn truncated_within(s: Seq<char>, max: int) -> Seq<char> {
    if s.len() <= max {
        s
    } else if max <= 0 {
        seq!['…']
    } else {
        s.take(max - 1).push('…')
    }
}

/// Keeps `max_chars` characters and marks the cut with an ellipsis after them.
pub fn truncate_chars(text: &str, max_chars: usize) -> (r: String)
    ensures
        r@ == truncated_after(text@, max_chars as int),
{
    let v = chars_of(text);
    if v.len() <= max_chars {
        string_from(&v)
    } else {
        let mut r = string_of(&v, 0, max_chars);
        assert(r@ =~= v@.take(max_chars as int));
        r.push('…');
        r
    }
}

/// Keeps `n` characters, an ellipsis among them when the text is longer.
pub fn truncate(s: &str, n: usize) -> (r: String)
    ensures
        r@ == truncated_within(s@, n as int),
{
    let v = chars_of(s);
    if v.len() <= n {
        string_from(&v)
    } else {
        let mut r = string_of(&v, 0, n.saturating_sub(1));
        assert(n > 0 ==> r@ =~= v@.take(n - 1));
        assert(n == 0 ==> r@ =~= Seq::<char>::empty());
        r.push('…');
        assert(n == 0 ==> r@ =~= seq!['…']);
        r
    }
}

/// The text cut to a number of columns; nothing when there are none.
pub open spec fn fitted(s: Seq<char>, cols: int) -> Seq<char> {
    if cols <= 0 {
        Seq::empty()
    } else {
        truncated_within(s, cols)
    }
}

/// Cuts a text to a number of columns.
pub fn truncate_for_width(text: &str, max_cols: u16) -> (r: String)
    ensures
        r@ == fitted(text@, max_cols as int),
{
    if max_cols == 0 {
        String::new()
    } else {
        truncate(text, max_cols as usize)
    }
}

/// A fitted text takes no more columns than there are.
pub proof fn fitted_text_fits(s: Seq<char>, cols: int)
    requires
        0 <= cols,
    ensures
        fitted(s, cols).len() <= cols,
{
}

// ---------------------------------------------------------------------------
// Wrapping
// ---------------------------------------------------------------------------

/// The first `budget` pieces of a word cut every `w` characters.
pub open spec fn chunks(word: Seq<char>, w: int, budget: int) -> Seq<Seq<char>>
    decreases budget,
{
    if word.len() == 0 || budget <= 0 || w <= 0 {
        Seq::empty()
    } else if word.len() <= w {
        seq![word]
    } else {
        seq![word.take(w)] + chunks(word.skip(w), w, budget - 1)
    }
}

/// What is left of the word after `budget` pieces.
pub open spec fn leftover(word: Seq<char>, w: int, budget: int) -> Seq<char>
    decreases budget,
{
    if word.len() == 0 || budget <= 0 || w <= 0 {
        word
    } else if word.len() <= w {
        Seq::empty()
    } else {
        leftover(word.skip(w), w, budget - 1)
    }
}

/// Complete lines, the line being filled, and whether text was left over.
/// Once `done`, no further word is placed.
#[verifier::ext_equal]
pub struct Wrap {
    pub lines: Seq<Seq<char>>,
    pub cur: Seq<char>,
    pub cut: bool,
    pub done: bool,
}

/// A word at the start of a line: it begins the line, or, wider than a line,
/// is split into lines of its own as far as the budget goes.
pub open spec fn place(st: Wrap, word: Seq<char>, w: int, max: int) -> Wrap {
    if word.len() > w {
        let budget = max - st.lines.len();
        Wrap {
            lines: st.lines + chunks(word, w, budget),
            cur: Seq::empty(),
            cut: st.cut || leftover(word, w, budget).len() > 0,
            done: st.done,
        }
    } else {
        Wrap { cur: word, ..st }
    }
}

/// The next word: on the current line if it fits, else at the start of the
/// next one, if the budget has one.
pub open spec fn wrap_word(st: Wrap, word: Seq<char>, w: int, max: int) -> Wrap {
    if st.done {
        st
    } else if st.cur.len() == 0 {
        place(st, word, w, max)
    } else if st.cur.len() + 1 + word.len() <= w {
        Wrap { cur: st.cur.push(' ') + word, ..st }
    } else {
        let lines = st.lines.push(st.cur);
        if lines.len() >= max {
            Wrap { lines, cur: Seq::empty(), cut: true, done: true }
        } else {
            place(Wrap { lines, cur: Seq::empty(), ..st }, word, w, max)
        }
    }
}

/// The state after the first `n` words.
pub open spec fn wrap_words_of(ws: Seq<Seq<char>>, n: int, w: int, max: int) -> Wrap
    decreases n,
{
    if n <= 0 {
        Wrap { lines: Seq::empty(), cur: Seq::empty(), cut: false, done: false }
    } else {
        wrap_word(wrap_words_of(ws, n - 1, w, max), ws[n - 1], w, max)
    }
}

/// The line cut so that an ellipsis ends it within `w` columns.
pub open spec fn ellipsized(line: Seq<char>, w: int) -> Seq<char> {
    if line.len() + 1 > w {
        line.take(if w >= 1 {
            w - 1
        } else {
            0
        }).push('…')
    } else {
        line.push('…')
    }
}

/// The lines that are shown for a final state: at most `max`, the last with an
/// ellipsis when text was left over, and at least one.
pub open spec fn wrap_end(st: Wrap, w: int, max: int) -> Seq<Seq<char>> {
    let all = if !st.cut && st.cur.len() > 0 {
        st.lines.push(st.cur)
    } else {
        st.lines
    };
    let cut = st.cut || all.len() > max;
    let kept = if all.len() > max {
        all.take(max)
    } else {
        all
    };
    if kept.len() == 0 {
        seq![Seq::<char>::empty()]
    } else if cut {
        kept.drop_last().push(ellipsized(kept.last(), w))
    } else {
        kept
    }
}

/// The width that wrapping works with.
pub open spec fn wrap_width(width: int) -> int {
    if width < 1 {
        1
    } else {
        width
    }
}

/// Greedy word wrap to `width` columns and at most `max` lines.
pub open spec fn wrapped(text: Seq<char>, width: int, max: int) -> Seq<Seq<char>> {
    let w = wrap_width(width);
    let ws = words(text);
    wrap_end(wrap_words_of(ws, ws.len() as int, w, max), w, max)
}

fn push_chunks(lines: &mut Vec<String>, word: &Vec<char>, w: usize, max: usize) -> (left: bool)
    requires
        w >= 1,
        old(lines)@.len() <= max,
    ensures
        views(final(lines)@) == views(old(lines)@) + chunks(word@, w as int, max - old(lines)@.len()),
        left == (leftover(word@, w as int, max - old(lines)@.len()).len() > 0),
        final(lines)@.len() <= max,
{
    let ghost start = views(lines@);
    let ghost budget = max - lines@.len();
    let mut i: usize = 0;
    assert(word@.skip(0) =~= word@);
    assert(start + Seq::<Seq<char>>::empty() =~= start);
    while i < word.len() && lines.len() < max
        invariant
            w >= 1,
            i <= word@.len(),
            lines@.len() <= max,
            start + chunks(word@, w as int, budget) =~= views(lines@) + chunks(
                word@.skip(i as int),
                w as int,
                max - lines@.len(),
            ),
            leftover(word@, w as int, budget) == leftover(
                word@.skip(i as int),
                w as int,
                max - lines@.len(),
            ),
        decreases word@.len() - i,
    {
        let ghost rest = word@.skip(i as int);
        let ghost b = max - lines@.len();
        let n: usize = word.len();
        let end: usize = if n - i <= w {
            n
        } else {
            i + w
        };
        let piece = string_of(word, i, end);
        let ghost before = lines@;
        proof {
            lemma_views_push(before, piece);
            if rest.len() > w {
                assert(piece@ =~= rest.take(w as int));
                assert(rest.skip(w as int) =~= word@.skip(end as int));
                assert(views(before) + (seq![piece@] + chunks(rest.skip(w as int), w as int, b - 1))
                    =~= views(before).push(piece@) + chunks(rest.skip(w as int), w as int, b - 1));
            } else {
                assert(piece@ =~= rest);
                assert(word@.skip(end as int) =~= Seq::<char>::empty());
                assert(views(before) + seq![piece@] =~= views(before).push(piece@)
                    + Seq::<Seq<char>>::empty());
            }
        }
        lines.push(piece);
        i = end;
    }
    assert(views(lines@) + Seq::<Seq<char>>::empty() =~= views(lines@));
    i < word.len()
}

/// Wraps `text` to `width` columns, capped at `max_lines`. Words longer than
/// `width` are hard-split. If the text does not fit in `max_lines`, the last
/// line ends with `…`.
#[verifier::rlimit(40)]
pub fn wrap_words(text: &str, width: usize, max_lines: usize) -> (r: Vec<String>)
    ensures
        views(r@) == wrapped(text@, width as int, max_lines as int),
{
    let w: usize = if width < 1 {
        1
    } else {
        width
    };
    let ws = words_of(&chars_of(text));
    let ghost wv = words(text@);
    let mut lines: Vec<String> = Vec::new();
    let mut cur: Vec<char> = Vec::new();
    let mut cut = false;
    let mut done = false;
    let mut i: usize = 0;
    assert(views(lines@) =~= Seq::<Seq<char>>::empty());
    while i < ws.len() && !done
        invariant
            w >= 1,
            i <= ws@.len(),
            deep(ws@) == wv,
            cur@.len() <= w,
            !done ==> lines@.len() <= max_lines,
            wrap_words_of(wv, i as int, w as int, max_lines as int) == (Wrap {
                lines: views(lines@),
                cur: cur@,
                cut,
                done,
            }),
        decreases ws@.len() - i,
    {
        let word = &ws[i];
        let ghost st = wrap_words_of(wv, i as int, w as int, max_lines as int);
        assert(wv[i as int] == word@) by {
            assert(deep(ws@)[i as int] == word@);
        }
        let mut start = cur.len() == 0;
        if !start {
            let room: usize = w - cur.len();
            if room > 0 && word.len() <= room - 1 {
                let mut tail = slice_chars(word, 0, word.len());
                assert(tail@ =~= word@);
                cur.push(' ');
                cur.append(&mut tail);
            } else {
                let line = string_from(&cur);
                proof {
                    lemma_views_push(lines@, line);
                }
                lines.push(line);
                cur = Vec::new();
                assert(cur@ =~= Seq::<char>::empty());
                if lines.len() >= max_lines {
                    cut = true;
                    done = true;
                } else {
                    start = true;
                }
            }
        }
        if start {
            if word.len() > w {
                let left = push_chunks(&mut lines, word, w, max_lines);
                cut = cut || left;
                assert(cur@ =~= Seq::<char>::empty());
            } else {
                cur = slice_chars(word, 0, word.len());
                assert(cur@ =~= word@);
            }
        }
        i += 1;
    }
    proof {
        lemma_done_stays(wv, i as int, wv.len() as int, w as int, max_lines as int);
    }
    let ghost st = Wrap { lines: views(lines@), cur: cur@, cut, done };
    if !cut && cur.len() > 0 {
        let line = string_from(&cur);
        proof {
            lemma_views_push(lines@, line);
        }
        lines.push(line);
    }
    let ghost all = views(lines@);
    if lines.len() > max_lines {
        cut = true;
        let ghost full = lines@;
        lines.truncate(max_lines);
        assert(views(lines@) =~= all.take(max_lines as int));
    }
    if lines.len() == 0 {
        lines.push(String::new());
        assert(views(lines@) =~= seq![Seq::<char>::empty()]);
        return lines;
    }
    if cut {
        let n: usize = lines.len();
        let last = chars_of(lines[n - 1].as_str());
        let keep: usize = if last.len() < w {
            last.len()
        } else {
            w - 1
        };
        let mut line = string_of(&last, 0, keep);
        assert(line@ =~= last@.take(keep as int));
        line.push('…');
        assert(line@ =~= ellipsized(last@, w as int)) by {
            if last@.len() < w {
                assert(last@.take(keep as int) =~= last@);
            }
        }
        let ghost kept = views(lines@);
        assert(kept.last() == last@);
        lines[n - 1] = line;
        assert(views(lines@) =~= kept.drop_last().push(line@));
    }
    lines
}

/// Words after the end of the budget change nothing.
proof fn lemma_done_stays(ws: Seq<Seq<char>>, i: int, n: int, w: int, max: int)
    requires
        0 <= i <= n,
    ensures
        wrap_words_of(ws, i, w, max).done ==> wrap_words_of(ws, n, w, max) == wrap_words_of(
            ws,
            i,
            w,
            max,
        ),
    decreases n - i,
{
    if i < n {
        lemma_done_stays(ws, i, n - 1, w, max);
    }
}

// ---------------------------------------------------------------------------
// Laws
// ---------------------------------------------------------------------------

proof fn lemma_chunks_fit(word: Seq<char>, w: int, budget: int)
    requires
        w >= 1,
    ensures
        chunks(word, w, budget).len() <= if budget > 0 {
            budget
        } else {
            0
        },
        forall|k: int|
            0 <= k < chunks(word, w, budget).len() ==> (#[trigger] chunks(word, w, budget)[k]).len()
                <= w,
    decreases budget,
{
    if !(word.len() == 0 || budget <= 0 || word.len() <= w) {
        lemma_chunks_fit(word.skip(w), w, budget - 1);
    }
}

proof fn lemma_wrap_fits(ws: Seq<Seq<char>>, n: int, w: int, max: int)
    requires
        w >= 1,
        0 <= n <= ws.len(),
    ensures
        ({
            let st = wrap_words_of(ws, n, w, max);
            &&& st.cur.len() <= w
            &&& forall|k: int| 0 <= k < st.lines.len() ==> (#[trigger] st.lines[k]).len() <= w
        }),
    decreases n,
{
    if n > 0 {
        lemma_wrap_fits(ws, n - 1, w, max);
        let st = wrap_words_of(ws, n - 1, w, max);
        lemma_chunks_fit(ws[n - 1], w, max - st.lines.len());
        lemma_chunks_fit(ws[n - 1], w, max - st.lines.push(st.cur).len());
    }
}

/// Wrapped text keeps to its budget: no line, ellipsis included, is wider than
/// the width, and there are at most `max` lines, or the one line that is always
/// there.
pub proof fn wrapped_text_fits(text: Seq<char>, width: int, max: int)
    requires
        0 <= max,
    ensures
        forall|k: int|
            0 <= k < wrapped(text, width, max).len() ==> (#[trigger] wrapped(text, width, max)[k]).len()
                <= wrap_width(width),
        1 <= wrapped(text, width, max).len(),
        wrapped(text, width, max).len() <= if max < 1 {
            1
        } else {
            max
        },
{
    let ws = words(text);
    lemma_wrap_fits(ws, ws.len() as int, wrap_width(width), max);
}

/// The words from `a` up to `b` on one line.
pub open spec fn on_line(ws: Seq<Seq<char>>, a: int, b: int) -> Seq<char> {
    join(ws.subrange(a, b), " "@)
}

/// Line `k` of a layout.
pub open spec fn line_at(ws: Seq<Seq<char>>, cuts: Seq<int>, k: int) -> Seq<char> {
    on_line(ws, cuts[k], cuts[k + 1])
}

/// A way to break the first `n` words into lines of at most `w` characters: line `k`
/// holds the words from `cuts[k]` up to `cuts[k + 1]`, at least one of them.
pub open spec fn is_layout(ws: Seq<Seq<char>>, n: int, w: int, cuts: Seq<int>) -> bool {
    &&& cuts.len() >= 2
    &&& cuts[0] == 0
    &&& cuts.last() == n
    &&& forall|i: int, j: int| 0 <= i < j < cuts.len() ==> cuts[i] < cuts[j]
    &&& forall|k: int|
        0 <= k < cuts.len() - 1 ==> (#[trigger] line_at(ws, cuts, k)).len() <= w
}

proof fn lemma_line_grows(ws: Seq<Seq<char>>, a: int, b: int)
    requires
        0 <= a <= b < ws.len(),
    ensures
        on_line(ws, a, b + 1) == if a == b {
            ws[b]
        } else {
            on_line(ws, a, b) + " "@ + ws[b]
        },
        on_line(ws, a, b + 1).len() == if a == b {
            ws[b].len()
        } else {
            on_line(ws, a, b).len() + 1 + ws[b].len()
        },
{
    reveal_strlit(" ");
    let s = ws.subrange(a, b + 1);
    assert(s.last() == ws[b]);
    assert(s.drop_last() =~= ws.subrange(a, b));
    if a == b {
        assert(s.len() == 1);
    }
}

proof fn lemma_longer_line(ws: Seq<Seq<char>>, a: int, b: int, c: int)
    requires
        0 <= a < b <= c <= ws.len(),
    ensures
        on_line(ws, a, b).len() <= on_line(ws, a, c).len(),
    decreases c - b,
{
    if b < c {
        lemma_longer_line(ws, a, b, c - 1);
        lemma_line_grows(ws, a, c - 1);
    }
}

proof fn lemma_later_start(ws: Seq<Seq<char>>, a: int, b: int, c: int)
    requires
        0 <= a <= b < c <= ws.len(),
    ensures
        on_line(ws, b, c).len() <= on_line(ws, a, c).len(),
    decreases c - b,
{
    if a < b {
        lemma_line_grows(ws, a, c - 1);
        lemma_line_grows(ws, b, c - 1);
        if b < c - 1 {
            lemma_later_start(ws, a, b, c - 1);
        }
    }
}

proof fn lemma_join_push(parts: Seq<Seq<char>>, x: Seq<char>)
    ensures
        join(parts.push(x), " "@) == if parts.len() == 0 {
            x
        } else {
            join(parts, " "@) + " "@ + x
        },
{
    let s = parts.push(x);
    assert(s.drop_last() =~= parts);
    assert(s.last() == x);
}

/// Filling lines greedily stays ahead of every layout within the budget: when word
/// `n - 1` stands on line `j` of the layout, no more than `j` lines are complete, and
/// where as many are, the line being filled begins no earlier. Returns where it begins.
#[verifier::rlimit(30)]
proof fn lemma_stays_ahead(
    ws: Seq<Seq<char>>,
    cuts: Seq<int>,
    n: int,
    j: int,
    w: int,
    max: int,
) -> (b: int)
    requires
        is_layout(ws, ws.len() as int, w, cuts),
        cuts.len() - 1 <= max,
        forall|k: int| 0 <= k < ws.len() ==> (#[trigger] ws[k]).len() > 0,
        0 <= j < cuts.len() - 1,
        cuts[j] < n <= cuts[j + 1],
        1 <= n <= ws.len(),
    ensures
        ({
            let st = wrap_words_of(ws, n, w, max);
            &&& !st.cut
            &&& !st.done
            &&& 0 <= b < n
            &&& st.cur == on_line(ws, b, n)
            &&& st.cur.len() > 0
            &&& st.lines.len() <= j
            &&& st.lines.len() == j ==> b >= cuts[j]
            &&& join(st.lines.push(st.cur), " "@) == join(ws.take(n), " "@)
        }),
    decreases n,
{
    reveal_strlit(" ");
    let word = ws[n - 1];
    let st = wrap_words_of(ws, n, w, max);
    assert(cuts[j + 1] <= ws.len()) by {
        if j + 1 < cuts.len() - 1 {
            assert(cuts[j + 1] < cuts[cuts.len() - 1]);
        }
    }
    assert(cuts[j] >= 0) by {
        if j > 0 {
            assert(cuts[0] < cuts[j]);
        }
    }
    assert(line_at(ws, cuts, j).len() <= w);
    lemma_longer_line(ws, cuts[j], n, cuts[j + 1]);
    lemma_later_start(ws, cuts[j], n - 1, n);
    lemma_line_grows(ws, n - 1, n - 1);
    assert(word.len() <= w);
    if n == 1 {
        assert(wrap_words_of(ws, 0, w, max).cur.len() == 0);
        assert(ws.take(1) =~= seq![word]);
        lemma_join_push(st.lines, st.cur);
        assert(j == 0) by {
            if j > 0 {
                assert(cuts[0] < cuts[j]);
            }
        }
        0
    } else {
        let i = if n - 1 > cuts[j] {
            j
        } else {
            j - 1
        };
        assert(i >= 0);
        let b = lemma_stays_ahead(ws, cuts, n - 1, i, w, max);
        let before = wrap_words_of(ws, n - 1, w, max);
        lemma_line_grows(ws, b, n - 1);
        assert(ws.take(n) =~= ws.take(n - 1).push(word));
        lemma_join_push(ws.take(n - 1), word);
        lemma_join_push(before.lines, before.cur);
        if before.cur.len() + 1 + word.len() <= w {
            assert(before.cur.push(' ') + word =~= before.cur + " "@ + word);
            lemma_join_push(st.lines, st.cur);
            assert(join(st.lines.push(st.cur), " "@) =~= join(ws.take(n), " "@));
            b
        } else {
            if i == j && before.lines.len() == j {
                lemma_later_start(ws, cuts[j], b, n);
                assert(false);
            }
            let lines = before.lines.push(before.cur);
            assert(lines.len() < max);
            assert(st.lines == lines);
            assert(st.cur == word);
            lemma_join_push(lines, word);
            n - 1
        }
    }
}

/// Wrapping loses nothing and wastes no line: whenever the text can be broken into
/// lines that fit the width and the budget, the wrapped lines, joined by blanks, are the
/// words joined by blanks, and there are no more of them than in that layout.
pub proof fn wrapping_is_shortest(text: Seq<char>, width: int, max: int, cuts: Seq<int>)
    requires
        is_layout(words(text), words(text).len() as int, wrap_width(width), cuts),
        cuts.len() - 1 <= max,
    ensures
        join(wrapped(text, width, max), " "@) == join(words(text), " "@),
        wrapped(text, width, max).len() <= cuts.len() - 1,
{
    let ws = words(text);
    let w = wrap_width(width);
    let n = ws.len() as int;
    assert forall|k: int| 0 <= k < ws.len() implies (#[trigger] ws[k]).len() > 0 by {
        lemma_word_not_empty(text, k);
    }
    let j = cuts.len() - 2;
    assert(cuts[0] < cuts[cuts.len() - 1]);
    assert(cuts[j] < cuts[j + 1]);
    let b = lemma_stays_ahead(ws, cuts, n, j, w, max);
    assert(ws.take(n) =~= ws);
}

/// The lines of a state in which nothing was left over are a layout of the words that
/// were placed. Returns it.
proof fn lemma_greedy_layout(ws: Seq<Seq<char>>, n: int, w: int, max: int) -> (cuts: Seq<int>)
    requires
        1 <= n <= ws.len(),
        forall|k: int| 0 <= k < ws.len() ==> 0 < (#[trigger] ws[k]).len() <= w,
        !wrap_words_of(ws, n, w, max).cut,
    ensures
        is_layout(ws, n, w, cuts),
        cuts.len() == wrap_words_of(ws, n, w, max).lines.len() + 2,
        wrap_words_of(ws, n, w, max).cur == on_line(ws, cuts[cuts.len() - 2], n),
        wrap_words_of(ws, n, w, max).cur.len() > 0,
        !wrap_words_of(ws, n, w, max).done,
    decreases n,
{
    reveal_strlit(" ");
    let word = ws[n - 1];
    let st = wrap_words_of(ws, n, w, max);
    let before = wrap_words_of(ws, n - 1, w, max);
    assert(0 < word.len() <= w);
    lemma_line_grows(ws, n - 1, n - 1);
    if n == 1 {
        assert(before.cur.len() == 0);
        let cuts = seq![0int, 1int];
        assert(line_at(ws, cuts, 0) == word);
        cuts
    } else {
        lemma_cut_stays(ws, n - 1, w, max);
        let prior = lemma_greedy_layout(ws, n - 1, w, max);
        let b = prior[prior.len() - 2];
        assert(prior[prior.len() - 2] < prior[prior.len() - 1]);
        assert(b >= 0) by {
            if prior.len() > 2 {
                assert(prior[0] < prior[prior.len() - 2]);
            }
        }
        lemma_line_grows(ws, b, n - 1);
        if before.cur.len() + 1 + word.len() <= w {
            assert(before.cur.push(' ') + word =~= before.cur + " "@ + word);
            let cuts = prior.update(prior.len() - 1, n);
            assert forall|k: int| 0 <= k < cuts.len() - 1 implies (#[trigger] line_at(
                ws,
                cuts,
                k,
            )).len() <= w by {
                if k < cuts.len() - 2 {
                    assert(line_at(ws, cuts, k) == line_at(ws, prior, k));
                } else {
                    assert(cuts[k] == b);
                }
            }
            cuts
        } else {
            let cuts = prior.push(n);
            assert forall|k: int| 0 <= k < cuts.len() - 1 implies (#[trigger] line_at(
                ws,
                cuts,
                k,
            )).len() <= w by {
                if k < cuts.len() - 2 {
                    assert(line_at(ws, cuts, k) == line_at(ws, prior, k));
                } else {
                    assert(cuts[k] == n - 1);
                }
            }
            cuts
        }
    }
}

proof fn lemma_cut_stays(ws: Seq<Seq<char>>, n: int, w: int, max: int)
    requires
        0 <= n,
    ensures
        wrap_words_of(ws, n, w, max).cut ==> wrap_words_of(ws, n + 1, w, max).cut,
        wrap_words_of(ws, n, w, max).done ==> wrap_words_of(ws, n, w, max).cut,
    decreases n,
{
    if n > 0 {
        lemma_cut_stays(ws, n - 1, w, max);
    }
}

/// A text of words that fit the width, but that no layout fits into the budget, is cut,
/// and the last line says so with an ellipsis.
pub proof fn a_cut_text_says_so(text: Seq<char>, width: int, max: int)
    requires
        1 <= max,
        words(text).len() > 0,
        forall|k: int|
            0 <= k < words(text).len() ==> (#[trigger] words(text)[k]).len() <= wrap_width(width),
        forall|cuts: Seq<int>| #[trigger]
            is_layout(words(text), words(text).len() as int, wrap_width(width), cuts)
                ==> cuts.len() - 1 > max,
    ensures
        wrapped(text, width, max).last().last() == '…',
{
    let ws = words(text);
    let w = wrap_width(width);
    let n = ws.len() as int;
    let st = wrap_words_of(ws, n, w, max);
    assert forall|k: int| 0 <= k < ws.len() implies 0 < (#[trigger] ws[k]).len() <= w by {
        lemma_word_not_empty(text, k);
    }
    if !st.cut {
        let cuts = lemma_greedy_layout(ws, n, w, max);
        assert(is_layout(ws, n, w, cuts));
    } else {
        lemma_cut_has_lines(ws, n, w, max);
    }
}

proof fn lemma_cut_has_lines(ws: Seq<Seq<char>>, n: int, w: int, max: int)
    requires
        0 <= n <= ws.len(),
        forall|k: int| 0 <= k < ws.len() ==> 0 < (#[trigger] ws[k]).len() <= w,
    ensures
        wrap_words_of(ws, n, w, max).cut ==> wrap_words_of(ws, n, w, max).lines.len() > 0,
    decreases n,
{
    if n > 0 {
        lemma_cut_has_lines(ws, n - 1, w, max);
        assert(0 < ws[n - 1].len() <= w);
    }
}

} // verus!
