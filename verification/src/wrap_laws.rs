//! How words too wide for a line are wrapped.
use crate::text::words;
use crate::wrap::{chunks, leftover, truncated_within, wrap_words_of, wrapped};
use vstd::prelude::*;

verus! {

proof fn lemma_chunks(word: Seq<char>, w: int, budget: int)
    requires
        0 < w,
    ensures
        chunks(word, w, budget).flatten() + leftover(word, w, budget) == word,
        chunks(word, w, budget).len() <= if budget < 0 {
            0
        } else {
            budget
        },
        word.len() > 0 && budget > 0 ==> chunks(word, w, budget).len() > 0,
        forall|k: int|
            0 <= k < chunks(word, w, budget).len() - 1 ==> (#[trigger] chunks(
                word,
                w,
                budget,
            )[k]).len() == w,
        forall|k: int|
            0 <= k < chunks(word, w, budget).len() ==> 0 < (#[trigger] chunks(
                word,
                w,
                budget,
            )[k]).len() <= w,
    decreases budget,
{
    let all = chunks(word, w, budget);
    if word.len() == 0 || budget <= 0 {
        assert(all.flatten() =~= Seq::<char>::empty());
        assert(all.flatten() + word =~= word);
    } else if word.len() <= w {
        seq![word].lemma_flatten_one_element();
        assert(all.flatten() + Seq::<char>::empty() =~= word);
    } else {
        let rest = chunks(word.skip(w), w, budget - 1);
        lemma_chunks(word.skip(w), w, budget - 1);
        assert(all.drop_first() =~= rest);
        assert(all.first() == word.take(w));
        let left = leftover(word.skip(w), w, budget - 1);
        assert(all.flatten() == word.take(w) + rest.flatten());
        assert(all.flatten() + left =~= word.take(w) + (rest.flatten() + left));
        assert(word.take(w) + word.skip(w) =~= word);
        assert forall|k: int| 0 <= k < all.len() - 1 implies (#[trigger] all[k]).len() == w by {
            if k > 0 {
                assert(all[k] == rest[k - 1]);
            }
        }
        assert forall|k: int| 0 <= k < all.len() implies 0 < (#[trigger] all[k]).len() <= w by {
            if k > 0 {
                assert(all[k] == rest[k - 1]);
            }
        }
    }
}

/// A word that is wider than a line is split into full lines: put together they are the
/// word, and all but the last are as wide as the line.
pub proof fn a_wide_word_is_split_into_full_lines(text: Seq<char>, word: Seq<char>, w: int, max: int)
    requires
        0 < w,
        0 < max,
        words(text) == seq![word],
        word.len() > w,
        leftover(word, w, max).len() == 0,
    ensures
        wrapped(text, w, max).flatten() == word,
        wrapped(text, w, max).len() <= max,
        forall|k: int|
            0 <= k < wrapped(text, w, max).len() - 1 ==> (#[trigger] wrapped(
                text,
                w,
                max,
            )[k]).len() == w,
{
    let ws = words(text);
    lemma_chunks(word, w, max);
    let none = wrap_words_of(ws, 0, w, max);
    let st = wrap_words_of(ws, 1, w, max);
    assert(none.lines + chunks(word, w, max) =~= chunks(word, w, max));
    assert(st.lines == chunks(word, w, max));
    assert(wrapped(text, w, max) == chunks(word, w, max));
    assert(word + Seq::<char>::empty() =~= word);
    assert(chunks(word, w, max).flatten() + leftover(word, w, max) =~= chunks(
        word,
        w,
        max,
    ).flatten());
}

/// Text without words takes one empty line.
pub proof fn no_words_take_an_empty_line(text: Seq<char>, w: int, max: int)
    requires
        words(text).len() == 0,
        0 <= max,
    ensures
        wrapped(text, w, max) == seq![Seq::<char>::empty()],
{
}

/// Without room, a text that is cut leaves the ellipsis alone; with room, the ellipsis takes
/// the place of what does not fit.
pub proof fn a_cut_text_ends_in_an_ellipsis(s: Seq<char>, max: int)
    requires
        0 <= max < s.len(),
    ensures
        truncated_within(s, max).last() == '…',
        max == 0 ==> truncated_within(s, max).len() == 1,
        max > 0 ==> truncated_within(s, max).len() == max && truncated_within(s, max).drop_last()
            == s.take(max - 1),
{
    if max > 0 {
        assert(truncated_within(s, max).drop_last() =~= s.take(max - 1));
    }
}

} // verus!
