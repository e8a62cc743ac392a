//! Files of a workspace's data directory, as the caller read them.
use crate::numeral::{parse_u32, u32_numeral};
use crate::search::{starts, starts_with};
use crate::text::{
    chars_of, clone_opt, lemma_views_push, opt_view, same, slice_chars, trim, trim_str, views,
};
use vstd::prelude::*;

verus! {

/// A file: its name in two parts, and its content where it could be read.
#[derive(Debug, PartialEq, Eq)]
pub struct NamedFile {
    pub stem: String,
    pub extension: Option<String>,
    pub content: Option<String>,
}

/// What a file name and its content say.
#[verifier::ext_equal]
pub struct FileView {
    pub stem: Seq<char>,
    pub extension: Option<Seq<char>>,
    pub content: Option<Seq<char>>,
}

impl View for NamedFile {
    type V = FileView;

    open spec fn view(&self) -> FileView {
        FileView {
            stem: self.stem@,
            extension: opt_view(self.extension),
            content: opt_view(self.content),
        }
    }
}

/// What each of the files says.
pub open spec fn file_views(s: Seq<NamedFile>) -> Seq<FileView> {
    s.map_values(|f: NamedFile| f@)
}

impl NamedFile {
    /// Whether the file has the given extension.
    pub fn is_a(&self, extension: &str) -> (r: bool)
        ensures
            r == (self@.extension == Some(extension@)),
    {
        match &self.extension {
            Some(e) => same(e.as_str(), extension),
            None => false,
        }
    }
}

// ---------------------------------------------------------------------------
// Numbered files
// ---------------------------------------------------------------------------

/// The number that follows `prefix` in a file's stem.
pub open spec fn number_of(f: FileView, prefix: Seq<char>) -> Option<u32> {
    if starts_with(f.stem, prefix) {
        u32_numeral(f.stem.skip(prefix.len() as int))
    } else {
        None
    }
}

/// The number that follows `prefix` in a file's stem.
pub fn file_number(f: &NamedFile, prefix: &str) -> (r: Option<u32>)
    ensures
        r == number_of(f@, prefix@),
{
    let v = chars_of(f.stem.as_str());
    if !starts(&v, prefix) {
        return None;
    }
    let n: usize = prefix.unicode_len();
    let rest = slice_chars(&v, n, v.len());
    assert(rest@ =~= v@.skip(prefix@.len() as int));
    parse_u32(&rest)
}

/// A number and the content of the file that bears it, where it could be read.
pub type Numbered = (u32, Option<Seq<char>>);

/// The list with `x` put behind all entries whose number is not greater.
pub open spec fn inserted(s: Seq<Numbered>, x: Numbered) -> Seq<Numbered>
    decreases s.len(),
{
    if s.len() > 0 && s.last().0 > x.0 {
        inserted(s.drop_last(), x).push(s.last())
    } else {
        s.push(x)
    }
}

/// The first `n` entries in the order of their numbers; equal numbers keep their
/// order.
pub open spec fn ordered(s: Seq<Numbered>, n: int) -> Seq<Numbered>
    decreases n,
{
    if n <= 0 {
        Seq::empty()
    } else {
        inserted(ordered(s, n - 1), s[n - 1])
    }
}

/// The numbers do not fall.
pub open spec fn is_ordered(s: Seq<Numbered>) -> bool {
    forall|i: int, j: int| 0 <= i < j < s.len() ==> (#[trigger] s[i]).0 <= (#[trigger] s[j]).0
}

proof fn lemma_inserted(s: Seq<Numbered>, x: Numbered)
    requires
        is_ordered(s),
    ensures
        is_ordered(inserted(s, x)),
        inserted(s, x).len() == s.len() + 1,
        inserted(s, x).to_multiset() == s.to_multiset().insert(x),
        inserted(s, x).len() > 0,
        inserted(s, x).last().0 >= x.0,
        s.len() > 0 ==> inserted(s, x).last().0 >= s.last().0,
        s.len() > 0 && s.last().0 > x.0 ==> inserted(s, x).last() == s.last(),
        s.len() == 0 || s.last().0 <= x.0 ==> inserted(s, x).last() == x,
    decreases s.len(),
{
    broadcast use vstd::seq_lib::group_to_multiset_ensures;

    if s.len() > 0 && s.last().0 > x.0 {
        let t = s.drop_last();
        lemma_inserted(t, x);
        let u = inserted(t, x);
        assert(s =~= t.push(s.last()));
        assert(u.push(s.last()).to_multiset() =~= u.to_multiset().insert(s.last()));
        assert(t.push(s.last()).to_multiset() =~= t.to_multiset().insert(s.last()));
        assert(t.to_multiset().insert(x).insert(s.last()) =~= t.to_multiset().insert(
            s.last(),
        ).insert(x));
        assert forall|i: int, j: int| 0 <= i < j < u.push(s.last()).len() implies (
        #[trigger] u.push(s.last())[i]).0 <= (#[trigger] u.push(s.last())[j]).0 by {
            if j == u.len() {
                if t.len() > 0 {
                    assert(t.last() == s[s.len() - 2]);
                    assert(s[s.len() - 2].0 <= s[s.len() - 1].0);
                }
                if i < u.len() - 1 {
                    assert(u[i].0 <= u[u.len() - 1].0);
                }
            }
        }
    } else {
        assert(s.push(x).to_multiset() =~= s.to_multiset().insert(x));
        assert forall|i: int, j: int| 0 <= i < j < s.push(x).len() implies (
        #[trigger] s.push(x)[i]).0 <= (#[trigger] s.push(x)[j]).0 by {
            if j == s.len() && i < s.len() - 1 {
                assert(s[i].0 <= s[s.len() - 1].0);
            }
        }
    }
}

/// Ordering keeps every entry and puts the numbers in order.
pub proof fn ordering_sorts(s: Seq<Numbered>, n: int)
    requires
        0 <= n <= s.len(),
    ensures
        is_ordered(ordered(s, n)),
        ordered(s, n).to_multiset() == s.take(n).to_multiset(),
        ordered(s, n).len() == n,
    decreases n,
{
    broadcast use vstd::seq_lib::group_to_multiset_ensures;

    if n > 0 {
        ordering_sorts(s, n - 1);
        lemma_inserted(ordered(s, n - 1), s[n - 1]);
        assert(s.take(n) =~= s.take(n - 1).push(s[n - 1]));
        assert(s.take(n - 1).push(s[n - 1]).to_multiset() =~= s.take(n - 1).to_multiset().insert(
            s[n - 1],
        ));
    } else {
        assert(s.take(n) =~= Seq::<Numbered>::empty());
    }
}

/// Numbers and contents.
pub open spec fn numbered_views(s: Seq<(u32, Option<String>)>) -> Seq<Numbered> {
    s.map_values(|p: (u32, Option<String>)| (p.0, opt_view(p.1)))
}

fn insert_numbered(v: &mut Vec<(u32, Option<String>)>, n: u32, text: Option<String>)
    ensures
        numbered_views(final(v)@) == inserted(numbered_views(old(v)@), (n, opt_view(text))),
{
    let ghost all = numbered_views(v@);
    let ghost x = (n, opt_view(text));
    let mut i: usize = v.len();
    assert(all.take(all.len() as int) =~= all);
    assert(all.skip(all.len() as int) =~= Seq::<Numbered>::empty());
    while i > 0 && v[i - 1].0 > n
        invariant
            i <= v@.len(),
            all == numbered_views(v@),
            x == (n, opt_view(text)),
            inserted(all, x) =~= inserted(all.take(i as int), x) + all.skip(i as int),
        decreases i,
    {
        let ghost t = all.take(i as int);
        assert(t.drop_last() =~= all.take(i - 1));
        assert(t.last() == all[i - 1]);
        assert(all.skip(i - 1) =~= seq![all[i - 1]] + all.skip(i as int));
        i -= 1;
    }
    assert(all.take(i as int).len() > 0 ==> all.take(i as int).last() == all[i - 1]);
    v.insert(i, (n, text));
    assert(numbered_views(v@) =~= all.insert(i as int, x));
    assert(all.insert(i as int, x) =~= all.take(i as int).push(x) + all.skip(i as int));
}

/// The numbered files among the first `n`, in the order in which they were listed:
/// those with the wanted extension, if one is wanted, whose stem is `prefix` and a
/// number.
pub open spec fn numbered(
    files: Seq<FileView>,
    prefix: Seq<char>,
    extension: Option<Seq<char>>,
    n: int,
) -> Seq<Numbered>
    decreases n,
{
    if n <= 0 {
        Seq::empty()
    } else {
        let f = files[n - 1];
        let before = numbered(files, prefix, extension, n - 1);
        if (extension is None || f.extension == extension) && number_of(f, prefix) is Some {
            before.push((number_of(f, prefix).unwrap(), f.content))
        } else {
            before
        }
    }
}

/// The numbered files in the order of their numbers.
pub open spec fn numbered_in_order(
    files: Seq<FileView>,
    prefix: Seq<char>,
    extension: Option<Seq<char>>,
) -> Seq<Numbered> {
    let found = numbered(files, prefix, extension, files.len() as int);
    ordered(found, found.len() as int)
}

/// The contents among the first `n` entries that could be read.
pub open spec fn readable(s: Seq<Numbered>, n: int) -> Seq<Seq<char>>
    decreases n,
{
    if n <= 0 {
        Seq::empty()
    } else {
        match s[n - 1].1 {
            Some(text) => readable(s, n - 1).push(text),
            None => readable(s, n - 1),
        }
    }
}

/// The contents of the numbered files, in the order of their numbers.
pub open spec fn contents_in_order(
    files: Seq<FileView>,
    prefix: Seq<char>,
    extension: Option<Seq<char>>,
) -> Seq<Seq<char>> {
    let sorted = numbered_in_order(files, prefix, extension);
    readable(sorted, sorted.len() as int)
}

/// The last `n` entries.
pub open spec fn last_of<A>(s: Seq<A>, n: int) -> Seq<A> {
    if s.len() > n {
        s.skip(s.len() - n)
    } else {
        s
    }
}

/// The readable ones among the last `n` numbered text files, the oldest first.
pub open spec fn recent_explanations(files: Seq<FileView>, n: int) -> Seq<Seq<char>> {
    let recent = last_of(numbered_in_order(files, ""@, Some("txt"@)), n);
    readable(recent, recent.len() as int)
}

proof fn lemma_ordered_prefix(a: Seq<Numbered>, b: Seq<Numbered>, n: int)
    requires
        0 <= n <= a.len(),
        n <= b.len(),
        forall|i: int| 0 <= i < n ==> a[i] == b[i],
    ensures
        ordered(a, n) == ordered(b, n),
    decreases n,
{
    if n > 0 {
        lemma_ordered_prefix(a, b, n - 1);
    }
}

fn sort_numbered(files: &Vec<NamedFile>, prefix: &str, extension: Option<&str>) -> (r: Vec<
    (u32, Option<String>),
>)
    ensures
        numbered_views(r@) == numbered_in_order(
            file_views(files@),
            prefix@,
            (match extension {
                Some(e) => Some(e@),
                None => None,
            }),
        ),
{
    let ghost all = file_views(files@);
    let ghost ext = match extension {
        Some(e) => Some(e@),
        None => None,
    };
    let mut sorted: Vec<(u32, Option<String>)> = Vec::new();
    let mut i: usize = 0;
    assert(numbered_views(sorted@) =~= Seq::<Numbered>::empty());
    while i < files.len()
        invariant
            i <= files@.len(),
            all == file_views(files@),
            ext == (match extension {
                Some(e) => Some(e@),
                None => None,
            }),
            ({
                let found = numbered(all, prefix@, ext, i as int);
                numbered_views(sorted@) == ordered(found, found.len() as int)
            }),
        decreases files@.len() - i,
    {
        let f = &files[i];
        assert(all[i as int] == f@);
        let wanted = match extension {
            Some(e) => f.is_a(e),
            None => true,
        };
        let ghost found = numbered(all, prefix@, ext, i as int);
        if wanted {
            if let Some(n) = file_number(f, prefix) {
                insert_numbered(&mut sorted, n, clone_opt(&f.content));
                proof {
                    let more = found.push((n, f@.content));
                    lemma_ordered_prefix(more, found, found.len() as int);
                    assert(numbered(all, prefix@, ext, i + 1) == more);
                }
            }
        }
        i += 1;
    }
    sorted
}

fn read_from(v: &Vec<(u32, Option<String>)>, from: usize) -> (r: Vec<String>)
    requires
        from <= v@.len(),
    ensures
        ({
            let rest = numbered_views(v@).skip(from as int);
            views(r@) == readable(rest, rest.len() as int)
        }),
{
    let ghost rest = numbered_views(v@).skip(from as int);
    let mut out: Vec<String> = Vec::new();
    let mut k: usize = from;
    assert(views(out@) =~= Seq::<Seq<char>>::empty());
    while k < v.len()
        invariant
            from <= k <= v@.len(),
            rest == numbered_views(v@).skip(from as int),
            views(out@) == readable(rest, k - from),
        decreases v@.len() - k,
    {
        assert(rest[k - from] == (v@[k as int].0, opt_view(v@[k as int].1)));
        if let Some(t) = &v[k].1 {
            let t = t.clone();
            proof {
                lemma_views_push(out@, t);
            }
            out.push(t);
        }
        k += 1;
    }
    out
}

/// The contents of the numbered files, in the order of their numbers.
pub fn numbered_contents(files: &Vec<NamedFile>, prefix: &str, extension: Option<&str>) -> (r: Vec<
    String,
>)
    ensures
        views(r@) == contents_in_order(
            file_views(files@),
            prefix@,
            (match extension {
                Some(e) => Some(e@),
                None => None,
            }),
        ),
{
    let sorted = sort_numbered(files, prefix, extension);
    assert(numbered_views(sorted@).skip(0) =~= numbered_views(sorted@));
    read_from(&sorted, 0)
}

/// The last `n` explanations that the user gave, the oldest first.
pub fn load_recent_user_explanations(files: &Vec<NamedFile>, n: usize) -> (r: Vec<String>)
    ensures
        views(r@) == recent_explanations(file_views(files@), n as int),
{
    let sorted = sort_numbered(files, "", Some("txt"));
    let len: usize = sorted.len();
    let from: usize = len.saturating_sub(n);
    assert(numbered_views(sorted@).skip(0) =~= numbered_views(sorted@));
    read_from(&sorted, from)
}

// ---------------------------------------------------------------------------
// Files by extension
// ---------------------------------------------------------------------------

/// The contents of those among the first `n` files that have the extension and
/// could be read.
pub open spec fn contents_of(files: Seq<FileView>, extension: Seq<char>, n: int) -> Seq<Seq<char>>
    decreases n,
{
    if n <= 0 {
        Seq::empty()
    } else if files[n - 1].extension == Some(extension) && files[n - 1].content is Some {
        contents_of(files, extension, n - 1).push(files[n - 1].content.unwrap())
    } else {
        contents_of(files, extension, n - 1)
    }
}

/// The contents of the files that have the extension and could be read.
pub fn contents_with_extension(files: &Vec<NamedFile>, extension: &str) -> (r: Vec<String>)
    ensures
        views(r@) == contents_of(file_views(files@), extension@, files@.len() as int),
{
    let ghost all = file_views(files@);
    let mut out: Vec<String> = Vec::new();
    let mut i: usize = 0;
    assert(views(out@) =~= Seq::<Seq<char>>::empty());
    while i < files.len()
        invariant
            i <= files@.len(),
            all == file_views(files@),
            views(out@) == contents_of(all, extension@, i as int),
        decreases files@.len() - i,
    {
        assert(all[i as int] == files@[i as int]@);
        if files[i].is_a(extension) {
            if let Some(t) = &files[i].content {
                let t = t.clone();
                proof {
                    lemma_views_push(out@, t);
                }
                out.push(t);
            }
        }
        i += 1;
    }
    out
}

/// A surface's summary: the trimmed content of a summary file that is not blank.
pub open spec fn summary_in(f: FileView) -> Option<Seq<char>> {
    if f.extension == Some("summary"@) && f.content is Some && trim(f.content.unwrap()).len() > 0 {
        Some(trim(f.content.unwrap()))
    } else {
        None
    }
}

/// The surfaces and summaries among the first `n` files.
pub open spec fn summaries_of(files: Seq<FileView>, n: int) -> Seq<(Seq<char>, Seq<char>)>
    decreases n,
{
    if n <= 0 {
        Seq::empty()
    } else {
        match summary_in(files[n - 1]) {
            Some(t) => summaries_of(files, n - 1).push((files[n - 1].stem, t)),
            None => summaries_of(files, n - 1),
        }
    }
}

/// Surfaces and their summaries.
pub fn load_surface_summaries(files: &Vec<NamedFile>) -> (r: Vec<(String, String)>)
    ensures
        crate::app_panes::pair_views(r@) == summaries_of(
            file_views(files@),
            files@.len() as int,
        ),
{
    let ghost all = file_views(files@);
    let mut out: Vec<(String, String)> = Vec::new();
    let mut i: usize = 0;
    assert(crate::app_panes::pair_views(out@) =~= Seq::<(Seq<char>, Seq<char>)>::empty());
    while i < files.len()
        invariant
            i <= files@.len(),
            all == file_views(files@),
            crate::app_panes::pair_views(out@) == summaries_of(all, i as int),
        decreases files@.len() - i,
    {
        let f = &files[i];
        assert(all[i as int] == f@);
        if f.is_a("summary") {
            if let Some(t) = &f.content {
                let t = trim_str(t.as_str());
                if t.as_str().unicode_len() > 0 {
                    let p = (f.stem.clone(), t);
                    let ghost before = out@;
                    out.push(p);
                    assert(crate::app_panes::pair_views(out@) =~= crate::app_panes::pair_views(
                        before,
                    ).push((p.0@, p.1@)));
                }
            }
        }
        i += 1;
    }
    out
}

// ---------------------------------------------------------------------------
// Shell logs
// ---------------------------------------------------------------------------

/// A file in a surfaces directory, and what is known of the summary beside it: the
/// times of last change, where they are known.
#[derive(Debug, PartialEq, Eq)]
pub struct SurfaceFile {
    pub stem: String,
    pub extension: Option<String>,
    pub modified: Option<u64>,
    pub has_summary: bool,
    pub summary_modified: Option<u64>,
}

/// A log is due for a summary when it has none, or when it changed after it.
pub open spec fn summary_due(f: SurfaceFile) -> bool {
    opt_view(f.extension) == Some("log"@) && (!f.has_summary || match (
        f.modified,
        f.summary_modified,
    ) {
        (Some(l), Some(s)) => l > s,
        _ => false,
    })
}

/// The surfaces among the first `n` files that are due for a summary.
pub open spec fn due_surfaces(files: Seq<SurfaceFile>, n: int) -> Seq<Seq<char>>
    decreases n,
{
    if n <= 0 {
        Seq::empty()
    } else if summary_due(files[n - 1]) {
        due_surfaces(files, n - 1).push(files[n - 1].stem@)
    } else {
        due_surfaces(files, n - 1)
    }
}

/// The surfaces of a directory that are due for a summary.
pub fn surfaces_due_for_summary(files: &Vec<SurfaceFile>) -> (r: Vec<String>)
    ensures
        views(r@) == due_surfaces(files@, files@.len() as int),
{
    let mut out: Vec<String> = Vec::new();
    let mut i: usize = 0;
    assert(views(out@) =~= Seq::<Seq<char>>::empty());
    while i < files.len()
        invariant
            i <= files@.len(),
            views(out@) == due_surfaces(files@, i as int),
        decreases files@.len() - i,
    {
        let f = &files[i];
        let log = match &f.extension {
            Some(e) => same(e.as_str(), "log"),
            None => false,
        };
        let due = !f.has_summary || match (f.modified, f.summary_modified) {
            (Some(l), Some(s)) => l > s,
            _ => false,
        };
        if log && due {
            let sid = f.stem.clone();
            proof {
                lemma_views_push(out@, sid);
            }
            out.push(sid);
        }
        i += 1;
    }
    out
}

} // verus!
