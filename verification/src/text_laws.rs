//! What trimming, splitting and finding give, said of the characters themselves.
use crate::search::{find, join, matches_at, rfind, rfind_to, strip_leading};
use crate::text::{
    ascii_lowered, is_space, lemma_run_of_concat, lemma_word_len_bound, line_end, lines, lines_from,
    trim, trim_end, trim_start, word_len, words,
};
use vstd::prelude::*;

verus! {

/// Nothing but blanks.
pub open spec fn all_blank(s: Seq<char>) -> bool {
    forall|i: int| 0 <= i < s.len() ==> is_space(#[trigger] s[i])
}

/// No blank at all.
pub open spec fn no_blank(s: Seq<char>) -> bool {
    forall|i: int| 0 <= i < s.len() ==> !is_space(#[trigger] s[i])
}

// ---------------------------------------------------------------------------
// Trimming
// ---------------------------------------------------------------------------

/// Neither end is a blank.
pub open spec fn is_tight(s: Seq<char>) -> bool {
    s.len() > 0 ==> !is_space(s[0]) && !is_space(s.last())
}

proof fn lemma_trim_start(a: Seq<char>, s: Seq<char>)
    requires
        all_blank(a),
        s.len() > 0 ==> !is_space(s[0]),
    ensures
        trim_start(a + s) == s,
    decreases a.len(),
{
    if a.len() == 0 {
        assert(a + s =~= s);
    } else {
        assert((a + s)[0] == a[0]);
        assert((a + s).drop_first() =~= a.drop_first() + s);
        assert forall|i: int| 0 <= i < a.drop_first().len() implies is_space(
            #[trigger] a.drop_first()[i],
        ) by {
            assert(a.drop_first()[i] == a[i + 1]);
        }
        lemma_trim_start(a.drop_first(), s);
    }
}

proof fn lemma_trim_end(s: Seq<char>, b: Seq<char>)
    requires
        all_blank(b),
        s.len() > 0 ==> !is_space(s.last()),
    ensures
        trim_end(s + b) == s,
    decreases b.len(),
{
    if b.len() == 0 {
        assert(s + b =~= s);
    } else {
        assert((s + b).last() == b.last());
        assert((s + b).drop_last() =~= s + b.drop_last());
        lemma_trim_end(s, b.drop_last());
    }
}

/// Trimming takes the blanks off both ends and nothing else: whatever blanks surround a
/// text that neither begins nor ends with one, that text is what is left.
pub proof fn trimming_takes_the_outer_blanks(a: Seq<char>, s: Seq<char>, b: Seq<char>)
    requires
        all_blank(a),
        all_blank(b),
        is_tight(s),
    ensures
        trim(a + s + b) == s,
{
    if s.len() == 0 {
        let all = a + s + b;
        assert(all + Seq::<char>::empty() =~= all);
        assert(all_blank(all));
        lemma_trim_start(all, Seq::empty());
        assert(trim_end(Seq::<char>::empty()) =~= s);
    } else {
        assert(a + s + b =~= a + (s + b));
        lemma_trim_start(a, s + b);
        lemma_trim_end(s, b);
    }
}

proof fn lemma_start_split(s: Seq<char>)
    ensures
        trim_start(s).len() <= s.len(),
        trim_start(s) == s.skip(s.len() - trim_start(s).len()),
        all_blank(s.take(s.len() - trim_start(s).len())),
        trim_start(s).len() > 0 ==> !is_space(trim_start(s)[0]),
    decreases s.len(),
{
    if s.len() > 0 && is_space(s[0]) {
        let t = s.drop_first();
        lemma_start_split(t);
        let n = s.len() - trim_start(s).len();
        assert(s.take(n) =~= seq![s[0]] + t.take(n - 1));
        assert(s.skip(n) =~= t.skip(n - 1));
        assert forall|i: int| 0 <= i < s.take(n).len() implies is_space(#[trigger] s.take(n)[i]) by {
            if i > 0 {
                assert(s.take(n)[i] == t.take(n - 1)[i - 1]);
            }
        }
    } else {
        assert(s =~= s.skip(0));
    }
}

proof fn lemma_end_split(s: Seq<char>)
    ensures
        trim_end(s).len() <= s.len(),
        trim_end(s) == s.take(trim_end(s).len() as int),
        all_blank(s.skip(trim_end(s).len() as int)),
        trim_end(s).len() > 0 ==> !is_space(trim_end(s).last()),
        trim_end(s).len() > 0 ==> trim_end(s)[0] == s[0],
    decreases s.len(),
{
    if s.len() > 0 && is_space(s.last()) {
        let t = s.drop_last();
        lemma_end_split(t);
        let n = trim_end(s).len() as int;
        assert(s.skip(n) =~= t.skip(n).push(s.last()));
        assert(s.take(n) =~= t.take(n));
        assert forall|i: int| 0 <= i < s.skip(n).len() implies is_space(#[trigger] s.skip(n)[i]) by {
            if i < t.skip(n).len() {
                assert(s.skip(n)[i] == t.skip(n)[i]);
            }
        }
    } else {
        assert(s =~= s.take(s.len() as int));
    }
}

/// Every text is its trimmed form between blanks.
pub proof fn a_text_is_its_trimmed_form_between_blanks(s: Seq<char>) -> (r: (Seq<char>, Seq<char>))
    ensures
        s == r.0 + trim(s) + r.1,
        all_blank(r.0),
        all_blank(r.1),
        is_tight(trim(s)),
{
    let t = trim_start(s);
    lemma_start_split(s);
    lemma_end_split(t);
    let a = s.take(s.len() - t.len());
    let b = t.skip(trim(s).len() as int);
    assert(t =~= trim(s) + b);
    assert(s =~= a + t);
    assert(s =~= a + trim(s) + b);
    (a, b)
}

// ---------------------------------------------------------------------------
// Words and lines
// ---------------------------------------------------------------------------

/// Words are what blanks separate: a text without a blank is one word, blanks alone are
/// none, and a blank between two texts separates their words.
pub proof fn blanks_separate_words(a: Seq<char>, c: char, b: Seq<char>)
    requires
        is_space(c),
    ensures
        words(Seq::<char>::empty()).len() == 0,
        a.len() > 0 && no_blank(a) ==> words(a) == seq![a],
        words(a.push(c) + b) == words(a) + words(b),
    decreases a.len(),
{
    let all = a.push(c) + b;
    if a.len() == 0 {
        assert(all.drop_first() =~= b);
        assert(words(a) + words(b) =~= words(b));
    } else {
        assert(all[0] == a[0]);
        if no_blank(a) {
            crate::text::lemma_one_run(a);
            assert(a.take(a.len() as int) =~= a);
            assert(a.skip(a.len() as int) =~= Seq::<char>::empty());
            assert(seq![a] + Seq::<Seq<char>>::empty() =~= seq![a]);
        }
        if is_space(a[0]) {
            assert(all.drop_first() =~= a.drop_first().push(c) + b);
            blanks_separate_words(a.drop_first(), c, b);
        } else {
            let n = word_len(a) as int;
            lemma_word_len_bound(a);
            lemma_run_of_concat(a, seq![c] + b);
            assert(all =~= a + (seq![c] + b));
            assert(word_len(seq![c] + b) == 0);
            assert(word_len(all) == n);
            assert(all.take(n) =~= a.take(n));
            assert(all.skip(n) =~= a.skip(n).push(c) + b);
            blanks_separate_words(a.skip(n), c, b);
            assert(words(all) =~= words(a) + words(b));
        }
    }
}

proof fn lemma_shifted_line_end(p: Seq<char>, b: Seq<char>, i: int)
    requires
        0 <= i <= b.len(),
    ensures
        line_end(p + b, p.len() + i) == p.len() + line_end(b, i),
    decreases b.len() - i,
{
    if i < b.len() && b[i] != '\n' {
        lemma_shifted_line_end(p, b, i + 1);
    }
}

proof fn lemma_shifted_lines(p: Seq<char>, b: Seq<char>, i: int)
    requires
        0 <= i <= b.len(),
    ensures
        lines_from(p + b, p.len() + i) == lines_from(b, i),
    decreases b.len() - i,
{
    if i < b.len() {
        lemma_shifted_line_end(p, b, i);
        crate::text::lemma_line_end(b, i);
        let e = line_end(b, i);
        let s = p + b;
        if e < b.len() {
            lemma_shifted_lines(p, b, e + 1);
            assert(s.subrange(p.len() + i, p.len() + e) =~= b.subrange(i, e));
        } else {
            assert(s.subrange(p.len() + i, s.len() as int) =~= b.subrange(i, b.len() as int));
        }
    }
}

/// Lines are what line feeds end. A carriage return right before the line feed is not
/// part of the line, and after the last line feed there is no empty line.
pub proof fn line_feeds_end_lines(a: Seq<char>, b: Seq<char>)
    requires
        !a.contains('\n'),
    ensures
        lines(Seq::<char>::empty()).len() == 0,
        a.len() > 0 ==> lines(a) == seq![a],
        a.len() == 0 || a.last() != '\r' ==> lines(a.push('\n') + b) == seq![a] + lines(b),
        a.len() > 0 && a.last() == '\r' ==> lines(a.push('\n') + b) == seq![a.take(a.len() - 1)]
            + lines(b),
{
    assert(forall|i: int| 0 <= i < a.len() ==> a[i] != '\n');
    lemma_end_of_line(a, Seq::empty(), 0);
    assert(a + Seq::<char>::empty() =~= a);
    assert(a.subrange(0, a.len() as int) =~= a);
    let p = a.push('\n');
    let s = p + b;
    lemma_end_of_line(a, seq!['\n'] + b, 0);
    assert(a + (seq!['\n'] + b) =~= s);
    lemma_shifted_lines(p, b, 0);
    assert(s.subrange(0, a.len() as int) =~= a);
    if a.len() > 0 {
        assert(a.drop_last() =~= a.take(a.len() - 1));
    }
}

proof fn lemma_end_of_line(a: Seq<char>, rest: Seq<char>, i: int)
    requires
        0 <= i <= a.len(),
        forall|k: int| 0 <= k < a.len() ==> (#[trigger] a[k]) != '\n',
        rest.len() > 0 ==> rest[0] == '\n',
    ensures
        line_end(a + rest, i) == a.len(),
    decreases a.len() - i,
{
    if i < a.len() {
        assert((a + rest)[i] == a[i]);
        lemma_end_of_line(a, rest, i + 1);
    }
}

// ---------------------------------------------------------------------------
// Finding
// ---------------------------------------------------------------------------

/// The search gives the first place where a text stands, and the search from the end the
/// last one; neither gives a place exactly when there is none.
pub proof fn searches_give_the_first_and_the_last_place(s: Seq<char>, p: Seq<char>, i: int)
    ensures
        find(s, p) == Some(i) ==> 0 <= i && i + p.len() <= s.len() && s.subrange(i, i + p.len())
            == p && forall|j: int|
            0 <= j < i && j + p.len() <= s.len() ==> #[trigger] s.subrange(j, j + p.len()) != p,
        rfind(s, p) == Some(i) ==> 0 <= i && i + p.len() <= s.len() && s.subrange(i, i + p.len())
            == p && forall|j: int|
            i < j && j + p.len() <= s.len() ==> #[trigger] s.subrange(j, j + p.len()) != p,
        find(s, p) is None || rfind(s, p) is None ==> forall|j: int|
            0 <= j && j + p.len() <= s.len() ==> #[trigger] s.subrange(j, j + p.len()) != p,
{
    crate::search::lemma_find_from(s, p, 0);
    lemma_rfind(s, p, s.len() as int);
    assert forall|j: int| 0 <= j && j + p.len() <= s.len() && find(s, p) is None implies
        #[trigger] s.subrange(j, j + p.len()) != p by {
        assert(!matches_at(s, p, j));
    }
    assert forall|j: int| 0 <= j && j + p.len() <= s.len() && rfind(s, p) is None implies
        #[trigger] s.subrange(j, j + p.len()) != p by {
        assert(!matches_at(s, p, j));
    }
    if find(s, p) == Some(i) {
        assert forall|j: int| 0 <= j < i && j + p.len() <= s.len() implies #[trigger] s.subrange(
            j,
            j + p.len(),
        ) != p by {
            assert(!matches_at(s, p, j));
        }
    }
    if rfind(s, p) == Some(i) {
        assert forall|j: int| i < j && j + p.len() <= s.len() implies #[trigger] s.subrange(
            j,
            j + p.len(),
        ) != p by {
            assert(!matches_at(s, p, j));
        }
    }
}

proof fn lemma_rfind(s: Seq<char>, p: Seq<char>, i: int)
    ensures
        match rfind_to(s, p, i) {
            Some(k) => k <= i && matches_at(s, p, k) && (forall|j: int|
                k < j <= i ==> !#[trigger] matches_at(s, p, j)),
            None => forall|j: int| j <= i ==> !#[trigger] matches_at(s, p, j),
        },
    decreases i + 1,
{
    if i >= 0 && !matches_at(s, p, i) {
        lemma_rfind(s, p, i - 1);
    }
}

/// Stripping a character from the front takes all of its leading occurrences.
pub proof fn stripping_takes_every_leading_mark(c: char, n: nat, rest: Seq<char>)
    requires
        rest.len() > 0 ==> rest[0] != c,
    ensures
        strip_leading(Seq::new(n, |i: int| c) + rest, c) == rest,
    decreases n,
{
    let s = Seq::new(n, |i: int| c) + rest;
    if n == 0 {
        assert(s =~= rest);
    } else {
        assert(s[0] == c);
        assert(s.drop_first() =~= Seq::new((n - 1) as nat, |i: int| c) + rest);
        stripping_takes_every_leading_mark(c, (n - 1) as nat, rest);
    }
}

/// Joined parts stand in order, with the separator between neighbours and nowhere else.
pub proof fn joining_separates_neighbours(
    parts: Seq<Seq<char>>,
    more: Seq<Seq<char>>,
    sep: Seq<char>,
)
    ensures
        join(Seq::<Seq<char>>::empty(), sep).len() == 0,
        parts.len() == 1 ==> join(parts, sep) == parts[0],
        parts.len() > 0 && more.len() > 0 ==> join(parts + more, sep) == join(parts, sep) + sep
            + join(more, sep),
    decreases more.len(),
{
    if parts.len() > 0 && more.len() > 0 {
        let all = parts + more;
        assert(all.last() == more.last());
        assert(all.drop_last() =~= parts + more.drop_last());
        joining_separates_neighbours(parts, more.drop_last(), sep);
        if more.len() == 1 {
            assert(all.drop_last() =~= parts);
        } else {
            assert(join(all, sep) =~= join(parts, sep) + sep + join(more, sep));
        }
    }
}

/// Lowering changes the capital letters of ASCII and nothing else.
pub proof fn lowering_changes_capitals_only(s: Seq<char>, i: int)
    requires
        0 <= i < s.len(),
    ensures
        ascii_lowered(s).len() == s.len(),
        !('A' <= s[i] <= 'Z') ==> ascii_lowered(s)[i] == s[i],
        s[i] == 'A' ==> ascii_lowered(s)[i] == 'a',
        s[i] == 'Z' ==> ascii_lowered(s)[i] == 'z',
        'A' <= s[i] <= 'Z' ==> ascii_lowered(s)[i] as int - 'a' as int == s[i] as int - 'A' as int,
{
}

} // verus!
