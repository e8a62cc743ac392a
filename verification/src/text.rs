//! Text primitives: whitespace, words, lines, search, joining, ordering and
//! decimal numerals, each stated over the characters of the text.
use vstd::prelude::*;

verus! {

/// `String::push` appends the given character to the end of the string.
pub assume_specification[ String::push ](s: &mut String, c: char)
    ensures
        final(s)@ == old(s)@.push(c),
;

// ---------------------------------------------------------------------------
// Characters and strings
// ---------------------------------------------------------------------------

/// The characters of a string, in order.
pub fn chars_of(s: &str) -> (v: Vec<char>)
    ensures
        v@ == s@,
{
    let mut v: Vec<char> = Vec::new();
    for c in it: s.chars()
        invariant
            v@ == s@.take(it.index() as int),
            it.seq() == s@,
    {
        v.push(c);
    }
    assert(v@ =~= s@);
    v
}

/// The string made of `v[from..to]`.
pub fn string_of(v: &Vec<char>, from: usize, to: usize) -> (s: String)
    requires
        from <= to <= v@.len(),
    ensures
        s@ == v@.subrange(from as int, to as int),
{
    let mut s = String::new();
    let mut i: usize = from;
    while i < to
        invariant
            from <= i <= to <= v@.len(),
            s@ == v@.subrange(from as int, i as int),
        decreases to - i,
    {
        s.push(v[i]);
        i += 1;
    }
    s
}

/// The string with exactly the characters of `v`.
pub fn string_from(v: &Vec<char>) -> (s: String)
    ensures
        s@ == v@,
{
    let s = string_of(v, 0, v.len());
    assert(s@ =~= v@);
    s
}

/// `a` followed by `b`.
pub fn concat2(a: &str, b: &str) -> (s: String)
    ensures
        s@ == a@ + b@,
{
    let mut s = String::from_str(a);
    s.append(b);
    s
}

/// `a`, `b` and `c` one after the other.
pub fn concat3(a: &str, b: &str, c: &str) -> (s: String)
    ensures
        s@ == a@ + b@ + c@,
{
    let mut s = String::from_str(a);
    s.append(b);
    s.append(c);
    s
}

/// Whether two texts have the same characters.
pub fn same(a: &str, b: &str) -> (r: bool)
    ensures
        r == (a@ == b@),
{
    let x = String::from_str(a);
    let y = String::from_str(b);
    x == y
}

/// What an optional string holds, as characters.
pub open spec fn opt_view(o: Option<String>) -> Option<Seq<char>> {
    match o {
        Some(s) => Some(s@),
        None => None,
    }
}

/// The texts of a sequence of strings.
pub open spec fn views(s: Seq<String>) -> Seq<Seq<char>> {
    s.map_values(|x: String| x@)
}

/// Pushing a string pushes its text.
pub proof fn lemma_views_push(s: Seq<String>, x: String)
    ensures
        views(s.push(x)) == views(s).push(x@),
{
    assert(views(s.push(x)) =~= views(s).push(x@));
}

/// The list with `x` at its end, unless it holds it already.
pub open spec fn with_once(s: Seq<Seq<char>>, x: Seq<char>) -> Seq<Seq<char>> {
    if s.contains(x) {
        s
    } else {
        s.push(x)
    }
}

/// Whether a list holds a text.
pub fn holds_text(list: &Vec<String>, x: &str) -> (r: bool)
    ensures
        r == views(list@).contains(x@),
{
    let ghost all = views(list@);
    let mut i: usize = 0;
    while i < list.len()
        invariant
            i <= list@.len(),
            all == views(list@),
            forall|k: int| 0 <= k < i ==> #[trigger] all[k] != x@,
        decreases list@.len() - i,
    {
        assert(all[i as int] == list@[i as int]@);
        if same(list[i].as_str(), x) {
            return true;
        }
        i += 1;
    }
    false
}

/// Adds a text to a list, unless the list holds it already.
pub fn push_once(list: &mut Vec<String>, x: &str)
    ensures
        views(final(list)@) == with_once(views(old(list)@), x@),
{
    if !holds_text(list, x) {
        let s = String::from_str(x);
        proof {
            lemma_views_push(list@, s);
        }
        list.push(s);
    }
}

/// The texts of a sequence of character lists.
pub open spec fn deep(s: Seq<Vec<char>>) -> Seq<Seq<char>> {
    s.map_values(|x: Vec<char>| x@)
}

/// A copy of an optional string.
pub fn clone_opt(o: &Option<String>) -> (r: Option<String>)
    ensures
        r == *o,
{
    match o {
        Some(s) => Some(s.clone()),
        None => None,
    }
}

/// A copy of a list of strings.
pub fn clone_strings(v: &Vec<String>) -> (r: Vec<String>)
    ensures
        r@ == v@,
{
    let mut r: Vec<String> = Vec::new();
    let mut i: usize = 0;
    while i < v.len()
        invariant
            i <= v@.len(),
            r@ == v@.take(i as int),
        decreases v@.len() - i,
    {
        r.push(v[i].clone());
        i += 1;
    }
    assert(r@ =~= v@);
    r
}

// ---------------------------------------------------------------------------
// Whitespace and trimming
// ---------------------------------------------------------------------------

/// The characters with the Unicode `White_Space` property.
pub open spec fn is_space(c: char) -> bool {
    ||| '\u{9}' <= c <= '\u{d}'
    ||| c == ' '
    ||| c == '\u{85}'
    ||| c == '\u{a0}'
    ||| c == '\u{1680}'
    ||| '\u{2000}' <= c <= '\u{200a}'
    ||| c == '\u{2028}'
    ||| c == '\u{2029}'
    ||| c == '\u{202f}'
    ||| c == '\u{205f}'
    ||| c == '\u{3000}'
}

/// Decides `is_space`.
pub fn is_space_char(c: char) -> (r: bool)
    ensures
        r == is_space(c),
{
    ('\u{9}' <= c && c <= '\u{d}') || c == ' ' || c == '\u{85}' || c == '\u{a0}' || c == '\u{1680}'
        || ('\u{2000}' <= c && c <= '\u{200a}') || c == '\u{2028}' || c == '\u{2029}' || c
        == '\u{202f}' || c == '\u{205f}' || c == '\u{3000}'
}

/// `s` without its leading whitespace.
pub open spec fn trim_start(s: Seq<char>) -> Seq<char>
    decreases s.len(),
{
    if s.len() > 0 && is_space(s[0]) {
        trim_start(s.drop_first())
    } else {
        s
    }
}

/// `s` without its trailing whitespace.
pub open spec fn trim_end(s: Seq<char>) -> Seq<char>
    decreases s.len(),
{
    if s.len() > 0 && is_space(s.last()) {
        trim_end(s.drop_last())
    } else {
        s
    }
}

/// `s` without leading and trailing whitespace.
pub open spec fn trim(s: Seq<char>) -> Seq<char> {
    trim_end(trim_start(s))
}

/// Removes leading whitespace.
pub fn trim_start_chars(v: &Vec<char>) -> (r: Vec<char>)
    ensures
        r@ == trim_start(v@),
{
    let mut i: usize = 0;
    assert(v@.skip(0) =~= v@);
    while i < v.len() && is_space_char(v[i])
        invariant
            i <= v@.len(),
            trim_start(v@) == trim_start(v@.skip(i as int)),
        decreases v@.len() - i,
    {
        assert(v@.skip(i as int).drop_first() =~= v@.skip(i + 1));
        i += 1;
    }
    slice_chars(v, i, v.len())
}

/// Removes trailing whitespace.
pub fn trim_end_chars(v: &Vec<char>) -> (r: Vec<char>)
    ensures
        r@ == trim_end(v@),
{
    let mut i: usize = v.len();
    assert(v@.take(i as int) =~= v@);
    while i > 0 && is_space_char(v[i - 1])
        invariant
            i <= v@.len(),
            trim_end(v@) == trim_end(v@.take(i as int)),
        decreases i,
    {
        assert(v@.take(i as int).drop_last() =~= v@.take(i - 1));
        i -= 1;
    }
    slice_chars(v, 0, i)
}

/// Removes leading and trailing whitespace.
pub fn trim_chars(v: &Vec<char>) -> (r: Vec<char>)
    ensures
        r@ == trim(v@),
{
    trim_end_chars(&trim_start_chars(v))
}

/// The text without leading and trailing whitespace.
pub fn trim_str(s: &str) -> (r: String)
    ensures
        r@ == trim(s@),
{
    string_from(&trim_chars(&chars_of(s)))
}

/// The characters `v[from..to]`.
pub fn slice_chars(v: &Vec<char>, from: usize, to: usize) -> (r: Vec<char>)
    requires
        from <= to <= v@.len(),
    ensures
        r@ == v@.subrange(from as int, to as int),
{
    let mut r: Vec<char> = Vec::new();
    let mut i: usize = from;
    while i < to
        invariant
            from <= i <= to <= v@.len(),
            r@ == v@.subrange(from as int, i as int),
        decreases to - i,
    {
        r.push(v[i]);
        i += 1;
    }
    r
}

// ---------------------------------------------------------------------------
// Words
// ---------------------------------------------------------------------------

/// How many leading characters of `s` are not whitespace.
pub open spec fn word_len(s: Seq<char>) -> nat
    decreases s.len(),
{
    if s.len() > 0 && !is_space(s[0]) {
        1 + word_len(s.drop_first())
    } else {
        0
    }
}

/// The leading run of non-whitespace does not exceed the text.
pub proof fn lemma_word_len_bound(s: Seq<char>)
    ensures
        word_len(s) <= s.len(),
    decreases s.len(),
{
    if s.len() > 0 && !is_space(s[0]) {
        lemma_word_len_bound(s.drop_first());
    }
}

/// The maximal runs of non-whitespace, in order.
pub open spec fn words(s: Seq<char>) -> Seq<Seq<char>>
    decreases s.len(),
{
    if s.len() == 0 {
        Seq::empty()
    } else if is_space(s[0]) {
        words(s.drop_first())
    } else {
        let n = word_len(s) as int;
        if 0 < n <= s.len() {
            seq![s.take(n)] + words(s.skip(n))
        } else {
            Seq::empty()
        }
    }
}

/// A text without whitespace is one run.
pub proof fn lemma_one_run(s: Seq<char>)
    requires
        forall|i: int| 0 <= i < s.len() ==> !is_space(#[trigger] s[i]),
    ensures
        word_len(s) == s.len(),
        words(s).len() <= 1,
    decreases s.len(),
{
    if s.len() > 0 {
        assert forall|i: int| 0 <= i < s.drop_first().len() implies !is_space(
            #[trigger] s.drop_first()[i],
        ) by {
            assert(s.drop_first()[i] == s[i + 1]);
        }
        lemma_one_run(s.drop_first());
        assert(s.skip(s.len() as int).len() == 0);
        assert(words(s.skip(s.len() as int)).len() == 0);
    }
}

/// The characters of a leading run are not whitespace.
pub proof fn lemma_run_chars(s: Seq<char>, i: int)
    requires
        0 <= i < word_len(s),
    ensures
        i < s.len(),
        !is_space(s[i]),
    decreases s.len(),
{
    lemma_word_len_bound(s);
    if i > 0 {
        lemma_run_chars(s.drop_first(), i - 1);
        assert(s.drop_first()[i - 1] == s[i]);
    }
}

/// A word holds no whitespace.
pub proof fn lemma_word_chars(s: Seq<char>, k: int, i: int)
    requires
        0 <= k < words(s).len(),
        0 <= i < words(s)[k].len(),
    ensures
        !is_space(words(s)[k][i]),
    decreases s.len(),
{
    if is_space(s[0]) {
        lemma_word_chars(s.drop_first(), k, i);
    } else {
        let n = word_len(s) as int;
        lemma_word_len_bound(s);
        if k == 0 {
            lemma_run_chars(s, i);
        } else {
            assert(words(s)[k] == words(s.skip(n))[k - 1]);
            lemma_word_chars(s.skip(n), k - 1, i);
        }
    }
}

/// A word is not empty.
pub proof fn lemma_word_not_empty(s: Seq<char>, k: int)
    requires
        0 <= k < words(s).len(),
    ensures
        words(s)[k].len() > 0,
    decreases s.len(),
{
    if is_space(s[0]) {
        lemma_word_not_empty(s.drop_first(), k);
    } else {
        let n = word_len(s) as int;
        lemma_word_len_bound(s);
        if k > 0 {
            assert(words(s)[k] == words(s.skip(n))[k - 1]);
            lemma_word_not_empty(s.skip(n), k - 1);
        }
    }
}

/// The leading run of a concatenation.
pub proof fn lemma_run_of_concat(a: Seq<char>, b: Seq<char>)
    ensures
        word_len(a + b) == if word_len(a) == a.len() {
            a.len() + word_len(b)
        } else {
            word_len(a)
        },
    decreases a.len(),
{
    if a.len() == 0 {
        assert(a + b =~= b);
    } else {
        assert((a + b)[0] == a[0]);
        assert((a + b).drop_first() =~= a.drop_first() + b);
        lemma_run_of_concat(a.drop_first(), b);
    }
}

/// A concatenation has no more words than its parts have together.
pub proof fn lemma_words_of_concat(a: Seq<char>, b: Seq<char>)
    ensures
        words(a + b).len() <= words(a).len() + words(b).len(),
    decreases a.len(),
{
    lemma_word_len_bound(a);
    lemma_word_len_bound(b);
    if a.len() == 0 {
        assert(a + b =~= b);
    } else {
        assert((a + b)[0] == a[0]);
        if is_space(a[0]) {
            assert((a + b).drop_first() =~= a.drop_first() + b);
            lemma_words_of_concat(a.drop_first(), b);
        } else {
            lemma_run_of_concat(a, b);
            let n = word_len(a) as int;
            if n == a.len() {
                let m = word_len(b) as int;
                assert((a + b).skip(n + m) =~= b.skip(m));
                assert(b.skip(0) =~= b);
            } else {
                assert((a + b).skip(n) =~= a.skip(n) + b);
                lemma_words_of_concat(a.skip(n), b);
            }
        }
    }
}

/// Splits a text into its words.
pub fn words_of(v: &Vec<char>) -> (r: Vec<Vec<char>>)
    ensures
        deep(r@) == words(v@),
{
    let mut r: Vec<Vec<char>> = Vec::new();
    let mut i: usize = 0;
    assert(v@.skip(0) =~= v@);
    while i < v.len()
        invariant
            i <= v@.len(),
            r@.len() + words(v@.skip(i as int)).len() == words(v@).len(),
            forall|k: int| 0 <= k < r@.len() ==> (#[trigger] r@[k])@ == words(v@)[k],
            forall|k: int|
                r@.len() <= k < words(v@).len() ==> #[trigger] words(v@)[k] == words(
                    v@.skip(i as int),
                )[k - r@.len()],
        decreases v@.len() - i,
    {
        let ghost rest = v@.skip(i as int);
        if is_space_char(v[i]) {
            assert(rest.drop_first() =~= v@.skip(i + 1));
            i += 1;
        } else {
            let start: usize = i;
            proof {
                lemma_word_len_bound(rest);
            }
            assert(v@.skip(start + 0) =~= rest);
            while i < v.len() && !is_space_char(v[i])
                invariant
                    start <= i <= v@.len(),
                    rest == v@.skip(start as int),
                    word_len(rest) == (i - start) + word_len(v@.skip(i as int)),
                decreases v@.len() - i,
            {
                assert(v@.skip(i as int).drop_first() =~= v@.skip(i + 1));
                i += 1;
            }
            let ghost n = word_len(rest) as int;
            assert(n == i - start);
            assert(!is_space(rest[0]));
            assert(n > 0);
            assert(rest.skip(n) =~= v@.skip(i as int));
            let w = slice_chars(v, start, i);
            assert(w@ =~= rest.take(n));
            let ghost before = r@;
            assert(words(rest) == seq![rest.take(n)] + words(rest.skip(n)));
            r.push(w);
            assert forall|k: int| 0 <= k < r@.len() implies (#[trigger] r@[k])@ == words(v@)[k] by {
                if k == before.len() {
                    assert(words(v@)[k] == words(rest)[0]);
                } else {
                    assert(r@[k] == before[k]);
                }
            }
            assert forall|k: int| r@.len() <= k < words(v@).len() implies #[trigger] words(v@)[k]
                == words(v@.skip(i as int))[k - r@.len()] by {
                assert(words(v@)[k] == words(rest)[k - before.len()]);
            }
        }
    }
    assert(v@.skip(i as int).len() == 0);
    assert(deep(r@) =~= words(v@));
    r
}

// ---------------------------------------------------------------------------
// Lines
// ---------------------------------------------------------------------------

/// The index of the first line feed at or after `i`, or the length.
pub open spec fn line_end(s: Seq<char>, i: int) -> int
    decreases s.len() - i,
{
    if 0 <= i < s.len() && s[i] != '\n' {
        line_end(s, i + 1)
    } else {
        i
    }
}

pub proof fn lemma_line_end(s: Seq<char>, i: int)
    requires
        0 <= i <= s.len(),
    ensures
        i <= line_end(s, i) <= s.len(),
        line_end(s, i) < s.len() ==> s[line_end(s, i)] == '\n',
        forall|j: int| i <= j < line_end(s, i) ==> s[j] != '\n',
    decreases s.len() - i,
{
    if i < s.len() && s[i] != '\n' {
        lemma_line_end(s, i + 1);
    }
}

/// A line that was ended by a line feed loses one carriage return before it.
pub open spec fn drop_return(s: Seq<char>) -> Seq<char> {
    if s.len() > 0 && s.last() == '\r' {
        s.drop_last()
    } else {
        s
    }
}

/// The lines of `s` from position `i` on. A line ends at a line feed or at the
/// end of the text; a text that ends in a line feed has no empty line after it.
pub open spec fn lines_from(s: Seq<char>, i: int) -> Seq<Seq<char>>
    decreases s.len() - i,
{
    if 0 <= i < s.len() {
        let e = line_end(s, i);
        if i <= e < s.len() {
            seq![drop_return(s.subrange(i, e))] + lines_from(s, e + 1)
        } else {
            seq![s.subrange(i, s.len() as int)]
        }
    } else {
        Seq::empty()
    }
}

/// The lines of a text.
pub open spec fn lines(s: Seq<char>) -> Seq<Seq<char>> {
    lines_from(s, 0)
}

/// Splits a text into its lines.
pub fn lines_of(v: &Vec<char>) -> (r: Vec<Vec<char>>)
    ensures
        deep(r@) == lines(v@),
{
    let mut r: Vec<Vec<char>> = Vec::new();
    let mut i: usize = 0;
    let ghost whole = lines(v@);
    while i < v.len()
        invariant
            i <= v@.len(),
            whole == lines(v@),
            r@.len() + lines_from(v@, i as int).len() == whole.len(),
            forall|k: int| 0 <= k < r@.len() ==> (#[trigger] r@[k])@ == whole[k],
            forall|k: int|
                r@.len() <= k < whole.len() ==> #[trigger] whole[k] == lines_from(v@, i as int)[k
                    - r@.len()],
        decreases v@.len() - i,
    {
        let start: usize = i;
        let ghost rest = lines_from(v@, start as int);
        let ghost before = r@;
        proof {
            lemma_line_end(v@, start as int);
        }
        while i < v.len() && v[i] != '\n'
            invariant
                start <= i <= v@.len(),
                line_end(v@, start as int) == line_end(v@, i as int),
            decreases v@.len() - i,
        {
            i += 1;
        }
        assert(line_end(v@, start as int) == i);
        if i < v.len() {
            let mut e: usize = i;
            if e > start && v[e - 1] == '\r' {
                e -= 1;
            }
            let w = slice_chars(v, start, e);
            assert(w@ =~= drop_return(v@.subrange(start as int, i as int)));
            r.push(w);
            i += 1;
            assert(rest == seq![drop_return(v@.subrange(start as int, i - 1))] + lines_from(
                v@,
                i as int,
            ));
        } else {
            let w = slice_chars(v, start, i);
            r.push(w);
            assert(rest == seq![v@.subrange(start as int, v@.len() as int)]);
        }
        assert forall|k: int| 0 <= k < r@.len() implies (#[trigger] r@[k])@ == whole[k] by {
            if k == before.len() {
                assert(whole[k] == rest[0]);
            } else {
                assert(r@[k] == before[k]);
            }
        }
        assert forall|k: int| r@.len() <= k < whole.len() implies #[trigger] whole[k]
            == lines_from(v@, i as int)[k - r@.len()] by {
            assert(whole[k] == rest[k - before.len()]);
        }
    }
    assert(deep(r@) =~= lines(v@));
    r
}

/// Every line without its surrounding whitespace.
pub open spec fn trim_all(ls: Seq<Seq<char>>) -> Seq<Seq<char>> {
    ls.map_values(|l: Seq<char>| trim(l))
}

/// Trims every line.
pub fn trim_each(ls: &Vec<Vec<char>>) -> (r: Vec<Vec<char>>)
    ensures
        deep(r@) == trim_all(deep(ls@)),
{
    let mut r: Vec<Vec<char>> = Vec::new();
    let mut i: usize = 0;
    while i < ls.len()
        invariant
            i <= ls@.len(),
            r@.len() == i,
            forall|k: int| 0 <= k < i ==> (#[trigger] r@[k])@ == trim(ls@[k]@),
        decreases ls@.len() - i,
    {
        r.push(trim_chars(&ls[i]));
        i += 1;
    }
    assert(deep(r@) =~= trim_all(deep(ls@)));
    r
}

// ---------------------------------------------------------------------------
// Lower case
// ---------------------------------------------------------------------------

/// ASCII letters in lower case, everything else as it is.
pub open spec fn ascii_lower(c: char) -> char {
    if 'A' <= c <= 'Z' {
        (c as int + 32) as char
    } else {
        c
    }
}

/// A text with its ASCII letters in lower case.
pub open spec fn ascii_lowered(s: Seq<char>) -> Seq<char> {
    s.map_values(|c: char| ascii_lower(c))
}

/// A text with its ASCII letters in lower case.
pub fn lower_ascii(s: &str) -> (r: String)
    ensures
        r@ == ascii_lowered(s@),
{
    let v = chars_of(s);
    let mut out = String::new();
    let mut i: usize = 0;
    while i < v.len()
        invariant
            i <= v@.len(),
            out@ == ascii_lowered(v@.take(i as int)),
        decreases v@.len() - i,
    {
        let c = v[i];
        let d = if 'A' <= c && c <= 'Z' {
            ((c as u8) + 32) as char
        } else {
            c
        };
        assert(d == ascii_lower(c));
        out.push(d);
        assert(ascii_lowered(v@.take(i + 1)) =~= ascii_lowered(v@.take(i as int)).push(d));
        i += 1;
    }
    assert(v@.take(v@.len() as int) =~= v@);
    out
}

} // verus!
