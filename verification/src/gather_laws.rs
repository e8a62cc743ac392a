//! What a refresh gathers and how it is put together.
use crate::assoc::{lemma_key_from, Assoc};
use crate::files::{
    contents_in_order, contents_of, due_surfaces, inserted, last_of, number_of, numbered,
    numbered_in_order, ordered, ordering_sorts, readable, recent_explanations, summaries_of,
    summary_due, summary_in, FileView, Numbered, SurfaceFile,
};
use crate::gather::{
    beads_wanted, count_kind, first_window_ref, left_out, missing_refs, none_found, overall_due,
    route, short_name, transcript_of, transcripts, BoundTranscript, SessionRoute, SurfaceReport,
};
use crate::intent::ConversationIntent;
use crate::mesh::{retained, RemoteFreshness, RemoteSurfaceState};
use crate::numeral::{all_digits, decimal, decimal_denotes, u16_numeral, u32_numeral};
use crate::refresh::{
    described_missions, doc_view, given_beads, given_linear, mission_rows, rebuilt, RefreshFiles,
    RefreshSnapshot,
};
use crate::regen::{pointed, trimmed};
use crate::search::join;
use crate::sessions::{has_session, session_from, state_of, took_states, unreported};
use crate::snapshot::{assembled, intent_for, strict_failure_of, told, Gathered, SurfaceFinding};
use crate::sources::{
    group_from, grouped, last_source, registered_from, source_of, view_for, GroupView, LinearAnswer,
    SourceEvidence,
};
use crate::surface::{SurfaceInfo, SurfaceKind};
use crate::tasks::{LinearTarget, TaskSource};
use crate::text::{ascii_lowered, lines, opt_view, trim, views};
use crate::trajectory::ItemView;
use crate::workspace::{MuxSessionState, SessionFile, Workspace, WorkspaceState};
use vstd::prelude::*;

verus! {

// ---------------------------------------------------------------------------
// Numerals
// ---------------------------------------------------------------------------

proof fn lemma_decimal_digits(n: nat)
    ensures
        all_digits(decimal(n)),
        decimal(n).len() > 0,
        decimal(n)[0] != '+',
    decreases n,
{
    if n >= 10 {
        lemma_decimal_digits(n / 10);
        let d = decimal(n);
        assert forall|i: int| 0 <= i < d.len() implies crate::numeral::is_digit(
            #[trigger] d[i],
        ) by {
            if i < d.len() - 1 {
                assert(d[i] == decimal(n / 10)[i]);
            }
        }
    }
}

/// A number that was written is read back, where it fits.
pub proof fn a_written_number_is_read_back(n: nat)
    ensures
        n <= u16::MAX ==> u16_numeral(decimal(n)) == Some(n as u16),
        n > u16::MAX ==> u16_numeral(decimal(n)) is None,
        n <= u32::MAX ==> u32_numeral(decimal(n)) == Some(n as u32),
        n <= u32::MAX ==> u32_numeral(seq!['+'] + decimal(n)) == Some(n as u32),
        n > u32::MAX ==> u32_numeral(decimal(n)) is None,
{
    decimal_denotes(n);
    lemma_decimal_digits(n);
    assert((seq!['+'] + decimal(n)).skip(1) =~= decimal(n));
}

/// What holds anything but digits is no number.
pub proof fn only_digits_are_numbers(s: Seq<char>, i: int)
    requires
        0 <= i < s.len(),
        !('0' <= s[i] <= '9'),
    ensures
        u16_numeral(s) is None,
        i > 0 || s[0] != '+' ==> u32_numeral(s) is None,
        u16_numeral(Seq::empty()) is None,
        u32_numeral(Seq::empty()) is None,
{
    assert(!crate::numeral::is_digit(s[i]));
    if s[0] == '+' && i > 0 {
        assert(s.skip(1)[i - 1] == s[i]);
    }
}

// ---------------------------------------------------------------------------
// Files
// ---------------------------------------------------------------------------

/// A file is numbered by what follows the prefix in its name.
pub proof fn a_file_is_numbered_behind_its_prefix(
    prefix: Seq<char>,
    n: nat,
    extension: Option<Seq<char>>,
    content: Option<Seq<char>>,
)
    requires
        n <= u32::MAX,
    ensures
        number_of((FileView { stem: prefix + decimal(n), extension, content }), prefix) == Some(
            n as u32,
        ),
{
    a_written_number_is_read_back(n);
    let stem = prefix + decimal(n);
    assert(stem.subrange(0, prefix.len() as int) =~= prefix);
    assert(stem.skip(prefix.len() as int) =~= decimal(n));
}

proof fn lemma_filter_push(s: Seq<Numbered>, x: Numbered, k: u32)
    ensures
        s.push(x).filter(|e: Numbered| e.0 == k) == (if x.0 == k {
            s.filter(|e: Numbered| e.0 == k).push(x)
        } else {
            s.filter(|e: Numbered| e.0 == k)
        }),
{
    reveal(Seq::filter);
    assert(s.push(x).drop_last() =~= s);
}

proof fn lemma_inserted_filter(s: Seq<Numbered>, x: Numbered, k: u32)
    ensures
        inserted(s, x).filter(|e: Numbered| e.0 == k) == s.push(x).filter(
            |e: Numbered| e.0 == k,
        ),
    decreases s.len(),
{
    if s.len() > 0 && s.last().0 > x.0 {
        let t = s.drop_last();
        lemma_inserted_filter(t, x, k);
        assert(t.push(s.last()) =~= s);
        lemma_filter_push(inserted(t, x), s.last(), k);
        lemma_filter_push(t, x, k);
        lemma_filter_push(t, s.last(), k);
        lemma_filter_push(s, x, k);
    }
}

/// Files with the same number keep the order in which they were listed.
pub proof fn equal_numbers_keep_their_order(s: Seq<Numbered>, n: int, k: u32)
    requires
        0 <= n <= s.len(),
    ensures
        ordered(s, n).filter(|e: Numbered| e.0 == k) == s.take(n).filter(
            |e: Numbered| e.0 == k,
        ),
    decreases n,
{
    reveal(Seq::filter);
    let p = |e: Numbered| e.0 == k;
    if n > 0 {
        equal_numbers_keep_their_order(s, n - 1, k);
        let before = ordered(s, n - 1);
        lemma_inserted_filter(before, s[n - 1], k);
        assert(before.push(s[n - 1]).drop_last() =~= before);
        assert(s.take(n).drop_last() =~= s.take(n - 1));
        assert(s.take(n).last() == s[n - 1]);
    } else {
        assert(s.take(0).len() == 0);
        assert(ordered(s, 0).filter(p) =~= s.take(0).filter(p));
    }
}

/// A file counts when it has the wanted extension, if one is wanted, and a number.
pub open spec fn is_numbered(
    f: FileView,
    prefix: Seq<char>,
    extension: Option<Seq<char>>,
) -> bool {
    (extension is None || f.extension == extension) && number_of(f, prefix) is Some
}

proof fn lemma_numbered(
    files: Seq<FileView>,
    prefix: Seq<char>,
    extension: Option<Seq<char>>,
    n: int,
)
    requires
        0 <= n <= files.len(),
    ensures
        numbered(files, prefix, extension, n) == files.take(n).filter(
            |f: FileView| is_numbered(f, prefix, extension),
        ).map_values(|f: FileView| (number_of(f, prefix).unwrap(), f.content)),
    decreases n,
{
    reveal(Seq::filter);
    let p = |f: FileView| is_numbered(f, prefix, extension);
    let g = |f: FileView| (number_of(f, prefix).unwrap(), f.content);
    if n > 0 {
        lemma_numbered(files, prefix, extension, n - 1);
        assert(files.take(n).drop_last() =~= files.take(n - 1));
        assert(files.take(n).last() == files[n - 1]);
        let before = files.take(n - 1).filter(p);
        assert(before.push(files[n - 1]).map_values(g) =~= before.map_values(g).push(
            g(files[n - 1]),
        ));
    } else {
        assert(files.take(0).len() == 0);
        assert(files.take(0).filter(p).map_values(g) =~= Seq::empty());
    }
}

/// The numbered files are exactly those with a number and the wanted extension, the lowest
/// number first.
pub proof fn numbered_files_are_sorted(
    files: Seq<FileView>,
    prefix: Seq<char>,
    extension: Option<Seq<char>>,
)
    ensures
        ({
            let found = files.filter(
                |f: FileView| is_numbered(f, prefix, extension),
            ).map_values(|f: FileView| (number_of(f, prefix).unwrap(), f.content));
            let all = numbered_in_order(files, prefix, extension);
            &&& all.len() == found.len()
            &&& all.to_multiset() == found.to_multiset()
            &&& forall|i: int, j: int|
                0 <= i < j < all.len() ==> (#[trigger] all[i]).0 <= (#[trigger] all[j]).0
        }),
{
    lemma_numbered(files, prefix, extension, files.len() as int);
    assert(files.take(files.len() as int) =~= files);
    let found = numbered(files, prefix, extension, files.len() as int);
    ordering_sorts(found, found.len() as int);
    assert(found.take(found.len() as int) =~= found);
}

proof fn lemma_readable(s: Seq<Numbered>, n: int)
    requires
        0 <= n <= s.len(),
    ensures
        readable(s, n) == s.take(n).filter(|e: Numbered| e.1 is Some).map_values(
            |e: Numbered| e.1.unwrap(),
        ),
    decreases n,
{
    reveal(Seq::filter);
    let p = |e: Numbered| e.1 is Some;
    let g = |e: Numbered| e.1.unwrap();
    if n > 0 {
        lemma_readable(s, n - 1);
        assert(s.take(n).drop_last() =~= s.take(n - 1));
        assert(s.take(n).last() == s[n - 1]);
        let before = s.take(n - 1).filter(p);
        assert(before.push(s[n - 1]).map_values(g) =~= before.map_values(g).push(g(s[n - 1])));
    } else {
        assert(s.take(0).len() == 0);
        assert(s.take(0).filter(p).map_values(g) =~= Seq::empty());
    }
}

/// The contents are those of the numbered files that could be read, in their order.
pub proof fn contents_follow_the_numbers(
    files: Seq<FileView>,
    prefix: Seq<char>,
    extension: Option<Seq<char>>,
)
    ensures
        contents_in_order(files, prefix, extension) == numbered_in_order(
            files,
            prefix,
            extension,
        ).filter(|e: Numbered| e.1 is Some).map_values(|e: Numbered| e.1.unwrap()),
{
    let all = numbered_in_order(files, prefix, extension);
    lemma_readable(all, all.len() as int);
    assert(all.take(all.len() as int) =~= all);
}

proof fn lemma_contents(files: Seq<FileView>, extension: Seq<char>, n: int)
    requires
        0 <= n <= files.len(),
    ensures
        contents_of(files, extension, n) == files.take(n).filter(
            |f: FileView| f.extension == Some(extension) && f.content is Some,
        ).map_values(|f: FileView| f.content.unwrap()),
    decreases n,
{
    reveal(Seq::filter);
    let p = |f: FileView| f.extension == Some(extension) && f.content is Some;
    let g = |f: FileView| f.content.unwrap();
    if n > 0 {
        lemma_contents(files, extension, n - 1);
        assert(files.take(n).drop_last() =~= files.take(n - 1));
        assert(files.take(n).last() == files[n - 1]);
        let before = files.take(n - 1).filter(p);
        assert(before.push(files[n - 1]).map_values(g) =~= before.map_values(g).push(
            g(files[n - 1]),
        ));
    } else {
        assert(files.take(0).len() == 0);
        assert(files.take(0).filter(p).map_values(g) =~= Seq::empty());
    }
}

/// Files are chosen by their extension and keep their order.
pub proof fn files_are_chosen_by_extension(files: Seq<FileView>, extension: Seq<char>)
    ensures
        contents_of(files, extension, files.len() as int) == files.filter(
            |f: FileView| f.extension == Some(extension) && f.content is Some,
        ).map_values(|f: FileView| f.content.unwrap()),
{
    lemma_contents(files, extension, files.len() as int);
    assert(files.take(files.len() as int) =~= files);
}

/// A summary is the trimmed text of a summary file, unless it is blank.
pub proof fn a_summary_file_tells_its_text(f: FileView)
    ensures
        f.extension == Some("summary"@) && f.content is Some && trim(f.content.unwrap()).len() > 0
            ==> summary_in(f) == Some(trim(f.content.unwrap())),
        f.extension != Some("summary"@) ==> summary_in(f) is None,
        f.content is None || trim(f.content.unwrap()).len() == 0 ==> summary_in(f) is None,
{
}

/// The summaries stand under the names of their files, in the order of the files.
pub proof fn summaries_are_told_by_surface(files: Seq<FileView>, n: int, i: int)
    requires
        0 <= i < n <= files.len(),
    ensures
        ({
            let at = summaries_of(files, i).len() as int;
            let all = summaries_of(files, n);
            &&& summary_in(files[i]) is Some ==> at < all.len() && all[at] == (
                files[i].stem,
                summary_in(files[i]).unwrap(),
            )
            &&& summaries_of(files, i + 1).len() == at + (if summary_in(files[i]) is Some {
                1int
            } else {
                0int
            })
            &&& all.len() >= summaries_of(files, i + 1).len()
        }),
    decreases n,
{
    if i < n - 1 {
        summaries_are_told_by_surface(files, n - 1, i);
    }
}

/// A log is summarized when it has no summary or changed after it; other files never are.
pub proof fn a_changed_log_is_summarized(f: SurfaceFile)
    ensures
        opt_view(f.extension) == Some("log"@) && !f.has_summary ==> summary_due(f),
        opt_view(f.extension) == Some("log"@) && f.has_summary && f.modified is Some
            && f.summary_modified is Some ==> (summary_due(f) <==> f.summary_modified.unwrap()
            < f.modified.unwrap()),
        f.has_summary && (f.modified is None || f.summary_modified is None) ==> !summary_due(f),
        opt_view(f.extension) != Some("log"@) ==> !summary_due(f),
{
}

proof fn lemma_due(files: Seq<SurfaceFile>, n: int)
    requires
        0 <= n <= files.len(),
    ensures
        due_surfaces(files, n) == files.take(n).filter(|f: SurfaceFile| summary_due(f)).map_values(
            |f: SurfaceFile| f.stem@,
        ),
    decreases n,
{
    reveal(Seq::filter);
    let p = |f: SurfaceFile| summary_due(f);
    let g = |f: SurfaceFile| f.stem@;
    if n > 0 {
        lemma_due(files, n - 1);
        assert(files.take(n).drop_last() =~= files.take(n - 1));
        assert(files.take(n).last() == files[n - 1]);
        let before = files.take(n - 1).filter(p);
        assert(before.push(files[n - 1]).map_values(g) =~= before.map_values(g).push(
            g(files[n - 1]),
        ));
    } else {
        assert(files.take(0).len() == 0);
        assert(files.take(0).filter(p).map_values(g) =~= Seq::empty());
    }
}

/// The surfaces that are due are listed in order.
pub proof fn due_surfaces_are_listed(files: Seq<SurfaceFile>)
    ensures
        due_surfaces(files, files.len() as int) == files.filter(
            |f: SurfaceFile| summary_due(f),
        ).map_values(|f: SurfaceFile| f.stem@),
{
    lemma_due(files, files.len() as int);
    assert(files.take(files.len() as int) =~= files);
}

// ---------------------------------------------------------------------------
// Sessions
// ---------------------------------------------------------------------------

proof fn lemma_state_of(states: Seq<MuxSessionState>, session: Seq<char>, n: int)
    requires
        0 <= n <= states.len(),
    ensures
        match state_of(states, session, n) {
            Some(k) => 0 <= k < n && states[k].session_id@ == session && forall|j: int|
                k < j < n ==> (#[trigger] states[j]).session_id@ != session,
            None => forall|j: int| 0 <= j < n ==> (#[trigger] states[j]).session_id@ != session,
        },
    decreases n,
{
    if n > 0 && states[n - 1].session_id@ != session {
        lemma_state_of(states, session, n - 1);
    }
}

/// State `k` is the last one of a session that belongs to the workspace.
pub open spec fn is_state_of(
    sessions: Seq<(String, String)>,
    states: Seq<MuxSessionState>,
    uuid: Seq<char>,
    e: int,
    k: int,
) -> bool {
    &&& 0 <= e < sessions.len()
    &&& sessions[e].1@ == uuid
    &&& 0 <= k < states.len()
    &&& states[k].session_id@ == sessions[e].0@
    &&& forall|j: int| k < j < states.len() ==> (#[trigger] states[j]).session_id@ != sessions[e].0@
}

/// A workspace takes the newest state of its sessions: the state that it has then is one of
/// theirs, and none of theirs was written later.
pub proof fn the_newest_state_is_taken(
    s: Seq<WorkspaceState>,
    sessions: Seq<(String, String)>,
    states: Seq<MuxSessionState>,
    i: int,
    r: WorkspaceState,
    e: int,
    k: int,
)
    requires
        0 <= i < s.len(),
        took_states(s, sessions, states, i, r),
        forall|j: int| 0 <= j < i ==> (#[trigger] s[j]).workspace.uuid@ != s[i].workspace.uuid@,
        is_state_of(sessions, states, s[i].workspace.uuid@, e, k),
    ensures
        r.mux_status is Some,
        r.mux_status.unwrap().updated_at >= states[k].updated_at,
        exists|f: int, b: int| #[trigger]
            is_state_of(sessions, states, s[i].workspace.uuid@, f, b) && states[b]
                == r.mux_status.unwrap(),
        r.trajectory == s[i].trajectory,
        r.workspace == s[i].workspace,
{
    let uuid = s[i].workspace.uuid@;
    let m = sessions.len() as int;
    lemma_state_of(states, sessions[e].0@, states.len() as int);
    let found = state_of(states, sessions[e].0@, states.len() as int);
    assert(found == Some(k)) by {
        if found is None {
            assert(states[k].session_id@ != sessions[e].0@);
        } else if found.unwrap() < k {
            assert(states[k].session_id@ != sessions[e].0@);
        } else if k < found.unwrap() {
            assert(states[found.unwrap()].session_id@ != sessions[e].0@);
        }
    }
    assert(sessions[e].1@ == uuid);
    assert(crate::sessions::speaks_for(sessions, states, uuid, m, k));
    assert(has_session(sessions, uuid));
    assert(!crate::sessions::repeats(s, i));
    let b = choose|b: int| #[trigger]
        crate::sessions::is_newest(sessions, states, uuid, m, Some(b)) && states[b]
            == r.mux_status.unwrap();
    assert(crate::sessions::is_newest(sessions, states, uuid, m, Some(b)));
    assert(crate::sessions::speaks_for(sessions, states, uuid, m, b));
    let f = choose|f: int|
        0 <= f < m && (#[trigger] sessions[f]).1@ == uuid && state_of(
            states,
            sessions[f].0@,
            states.len() as int,
        ) == Some(b);
    lemma_state_of(states, sessions[f].0@, states.len() as int);
    assert(is_state_of(sessions, states, uuid, f, b));
}

/// A workspace without sessions keeps what it has.
pub proof fn without_sessions_nothing_changes(
    s: Seq<WorkspaceState>,
    sessions: Seq<(String, String)>,
    states: Seq<MuxSessionState>,
    i: int,
    r: WorkspaceState,
)
    requires
        took_states(s, sessions, states, i, r),
        forall|e: int|
            0 <= e < sessions.len() ==> (#[trigger] sessions[e]).1@ != s[i].workspace.uuid@,
    ensures
        r == s[i],
{
}

proof fn lemma_unreported(
    sessions: Seq<(String, String)>,
    states: Seq<MuxSessionState>,
    n: int,
)
    requires
        0 <= n <= sessions.len(),
    ensures
        unreported(sessions, states, n) == sessions.take(n).filter(
            |e: (String, String)| is_unreported(states, e.0@),
        ).map_values(|e: (String, String)| e.0@),
    decreases n,
{
    reveal(Seq::filter);
    let p = |e: (String, String)| is_unreported(states, e.0@);
    let g = |e: (String, String)| e.0@;
    if n > 0 {
        lemma_unreported(sessions, states, n - 1);
        lemma_state_of(states, sessions[n - 1].0@, states.len() as int);
        assert(is_unreported(states, sessions[n - 1].0@) == (state_of(
            states,
            sessions[n - 1].0@,
            states.len() as int,
        ) is None));
        assert(sessions.take(n).drop_last() =~= sessions.take(n - 1));
        assert(sessions.take(n).last() == sessions[n - 1]);
        let before = sessions.take(n - 1).filter(p);
        assert(before.push(sessions[n - 1]).map_values(g) =~= before.map_values(g).push(
            g(sessions[n - 1]),
        ));
    } else {
        assert(sessions.take(0).len() == 0);
        assert(sessions.take(0).filter(p).map_values(g) =~= Seq::empty());
    }
}

/// No state belongs to the session.
pub open spec fn is_unreported(states: Seq<MuxSessionState>, session: Seq<char>) -> bool {
    forall|j: int| 0 <= j < states.len() ==> (#[trigger] states[j]).session_id@ != session
}

/// The sessions without a state are exactly those that no state names, in order.
pub proof fn sessions_without_a_state_are_listed(
    sessions: Seq<(String, String)>,
    states: Seq<MuxSessionState>,
)
    ensures
        unreported(sessions, states, sessions.len() as int) == sessions.filter(
            |e: (String, String)| is_unreported(states, e.0@),
        ).map_values(|e: (String, String)| e.0@),
{
    lemma_unreported(sessions, states, sessions.len() as int);
    assert(sessions.take(sessions.len() as int) =~= sessions);
}

proof fn lemma_session_from(files: Seq<SessionFile>, uuid: Seq<char>, i: int, k: int)
    requires
        0 <= i,
    ensures
        i <= k < files.len() && opt_view(files[k].frontmatter.workspace_id) == Some(uuid) && (
        forall|j: int|
            i <= j < k ==> opt_view((#[trigger] files[j]).frontmatter.workspace_id) != Some(uuid))
            ==> session_from(files, uuid, i) == Some(files[k]),
        (forall|j: int|
            i <= j < files.len() ==> opt_view((#[trigger] files[j]).frontmatter.workspace_id)
                != Some(uuid)) ==> session_from(files, uuid, i) is None,
    decreases files.len() - i,
{
    if i < files.len() {
        lemma_session_from(files, uuid, i + 1, k);
    }
}

/// A workspace's session is the first file that names it.
pub proof fn the_first_file_is_the_session(files: Seq<SessionFile>, uuid: Seq<char>, k: int)
    ensures
        0 <= k < files.len() && opt_view(files[k].frontmatter.workspace_id) == Some(uuid) && (
        forall|j: int|
            0 <= j < k ==> opt_view((#[trigger] files[j]).frontmatter.workspace_id) != Some(uuid))
            ==> session_from(files, uuid, 0) == Some(files[k]),
        (forall|j: int|
            0 <= j < files.len() ==> opt_view((#[trigger] files[j]).frontmatter.workspace_id)
                != Some(uuid)) ==> session_from(files, uuid, 0) is None,
{
    lemma_session_from(files, uuid, 0, k);
}

// ---------------------------------------------------------------------------
// Surfaces
// ---------------------------------------------------------------------------

/// A strict refresh fails first for surfaces that could not be read, and goes on when every
/// workspace has an entry and there is a surface.
pub proof fn a_strict_refresh_needs_all_surfaces(
    workspaces: Seq<Workspace>,
    map: Assoc<Vec<SurfaceInfo>>,
    i: int,
    j: int,
)
    ensures
        strict_failure_of(workspaces, None) == Some("get cmux surfaces"@),
        0 <= i < workspaces.len() && (forall|e: int|
            0 <= e < map.entries@.len() ==> (#[trigger] map.entries@[e]).0@
                != workspaces[i].ref_id@) ==> strict_failure_of(workspaces, Some(map)) == Some(
            "cmux tree missing workspaces from current window: "@ + join(
                left_out(workspaces, Some(map)),
                ", "@,
            ),
        ) && left_out(workspaces, Some(map)).contains(workspaces[i].ref_id@),
        (forall|k: int|
            0 <= k < workspaces.len() ==> exists|e: int|
                0 <= e < map.entries@.len() && (#[trigger] map.entries@[e]).0@ == (
                #[trigger] workspaces[k]).ref_id@) && 0 <= j < map.entries@.len()
            && map.entries@[j].1@.len() > 0 ==> strict_failure_of(workspaces, Some(map)) is None,
        (forall|k: int|
            0 <= k < workspaces.len() ==> exists|e: int|
                0 <= e < map.entries@.len() && (#[trigger] map.entries@[e]).0@ == (
                #[trigger] workspaces[k]).ref_id@) && workspaces.len() > 0 && (forall|e: int|
            0 <= e < map.entries@.len() ==> (#[trigger] map.entries@[e]).1@.len() == 0)
            ==> strict_failure_of(workspaces, Some(map)) == Some(
            "cmux tree reported no surfaces for current window"@,
        ),
{
    let n = workspaces.len() as int;
    if 0 <= i < n && (forall|e: int|
        0 <= e < map.entries@.len() ==> (#[trigger] map.entries@[e]).0@ != workspaces[i].ref_id@) {
        lemma_missing(workspaces, map, n, i);
    }
    if forall|k: int|
        0 <= k < workspaces.len() ==> exists|e: int|
            0 <= e < map.entries@.len() && (#[trigger] map.entries@[e]).0@ == (
            #[trigger] workspaces[k]).ref_id@ {
        lemma_none_missing(workspaces, map, n);
    }
}

proof fn lemma_missing(s: Seq<Workspace>, map: Assoc<Vec<SurfaceInfo>>, n: int, i: int)
    requires
        0 <= i < n <= s.len(),
        forall|e: int|
            0 <= e < map.entries@.len() ==> (#[trigger] map.entries@[e]).0@ != s[i].ref_id@,
    ensures
        missing_refs(s, map, n).contains(s[i].ref_id@),
        missing_refs(s, map, n).len() > 0,
    decreases n,
{
    let now = missing_refs(s, map, n);
    if i == n - 1 {
        lemma_key_from(map.entries@, s[i].ref_id@, 0);
        assert(now[now.len() - 1] == s[i].ref_id@);
    } else {
        lemma_missing(s, map, n - 1, i);
        let before = missing_refs(s, map, n - 1);
        let k = choose|k: int| 0 <= k < before.len() && before[k] == s[i].ref_id@;
        assert(now[k] == s[i].ref_id@);
    }
}

proof fn lemma_none_missing(s: Seq<Workspace>, map: Assoc<Vec<SurfaceInfo>>, n: int)
    requires
        0 <= n <= s.len(),
        forall|k: int|
            0 <= k < s.len() ==> exists|e: int|
                0 <= e < map.entries@.len() && (#[trigger] map.entries@[e]).0@ == (
                #[trigger] s[k]).ref_id@,
    ensures
        missing_refs(s, map, n).len() == 0,
    decreases n,
{
    if n > 0 {
        lemma_none_missing(s, map, n - 1);
        lemma_key_from(map.entries@, s[n - 1].ref_id@, 0);
        assert(s[n - 1].ref_id@ == s[n - 1].ref_id@);
    }
}

/// How many of the first `n` kinds are the given one.
pub open spec fn alike(kinds: Seq<SurfaceKind>, kind: SurfaceKind, n: int) -> nat {
    kinds.take(n).filter(|k: SurfaceKind| k == kind).len()
}

proof fn lemma_count_kind(kinds: Seq<SurfaceKind>, kind: SurfaceKind, n: int)
    requires
        0 <= n <= kinds.len(),
    ensures
        count_kind(kinds, kind, n) == alike(kinds, kind, n),
        count_kind(kinds, kind, n) <= n,
    decreases n,
{
    reveal(Seq::filter);
    if n > 0 {
        lemma_count_kind(kinds, kind, n - 1);
        assert(kinds.take(n).drop_last() =~= kinds.take(n - 1));
        assert(kinds.take(n).last() == kinds[n - 1]);
    } else {
        assert(kinds.take(0).len() == 0);
    }
}

/// A transcript that is bound to an agent's surface tells its intent whenever it tells
/// anything, a cached summary as the overall goal; otherwise the log is looked up by the
/// surface's place among those of its kind. Surfaces without an agent have none.
pub proof fn a_bound_transcript_wins(
    kinds: Seq<SurfaceKind>,
    i: int,
    bound: Option<ConversationIntent>,
    cached: Option<String>,
)
    requires
        0 <= i < kinds.len() <= usize::MAX,
    ensures
        ({
            let r = route(kinds, i, bound, cached);
            let agent = kinds[i] == SurfaceKind::Claude || kinds[i] == SurfaceKind::Codex
                || kinds[i] == SurfaceKind::OtherAgent;
            let before = alike(kinds, kinds[i], i);
            &&& !agent ==> r is NoAgent
            &&& agent && bound is Some && cached is Some ==> r is Bound
                && r->Bound_0.overall_goal == cached && r->Bound_0.latest_ask
                == bound.unwrap().latest_ask
            &&& agent && bound is Some && cached is None && (bound.unwrap().overall_goal is Some
                || bound.unwrap().latest_ask is Some) ==> r == SessionRoute::Bound(bound.unwrap())
            &&& agent && bound is None ==> r is Lookup && r->Lookup_0 == before
            &&& agent && bound is Some && cached is None && bound.unwrap().overall_goal is None
                && bound.unwrap().latest_ask is None ==> r is Lookup && r->Lookup_0 == before
        }),
{
    lemma_count_kind(kinds, kinds[i], i);
}

/// An overall summary is made for the first turns, and again after every four.
pub proof fn a_summary_is_made_every_four_turns(turns: int, summarized: int)
    ensures
        turns <= 0 ==> !overall_due(turns, summarized),
        turns > 0 && summarized == 0 ==> overall_due(turns, summarized),
        turns > 0 && summarized > 0 ==> (overall_due(turns, summarized) <==> turns >= summarized
            + 4),
{
}

/// The transcript of an agent's surface is the one that is bound to it.
pub proof fn a_surface_has_its_own_transcript(
    s: SurfaceInfo,
    kind: SurfaceKind,
    bound: Assoc<BoundTranscript>,
)
    ensures
        kind == SurfaceKind::Shell || kind == SurfaceKind::Remote || kind == SurfaceKind::Unknown
            || s.uuid is None ==> transcript_of(s, kind, bound) is None,
        (kind == SurfaceKind::Claude || kind == SurfaceKind::Codex || kind
            == SurfaceKind::OtherAgent) && s.uuid is Some && bound.lookup(s.uuid.unwrap()@) is Some
            && bound.lookup(s.uuid.unwrap()@).unwrap().path is Some ==> transcript_of(
            s,
            kind,
            bound,
        ) == Some(
            (
                bound.lookup(s.uuid.unwrap()@).unwrap().agent,
                bound.lookup(s.uuid.unwrap()@).unwrap().path.unwrap()@,
            ),
        ),
        s.uuid is Some && bound.lookup(s.uuid.unwrap()@) is None ==> transcript_of(s, kind, bound)
            is None,
{
}

/// The machine's name is what it says, trimmed and in lower case.
pub proof fn the_machine_is_named_in_lower_case(s: String)
    ensures
        short_name(Some(s)) == ascii_lowered(trim(s@)),
        short_name(None) == "localhost"@,
{
}

// ---------------------------------------------------------------------------
// Trackers
// ---------------------------------------------------------------------------

/// Beads rows are shown unless Linear keeps the tasks.
pub proof fn beads_give_way_to_linear(source: Option<TaskSource>)
    ensures
        beads_wanted(source) <==> !(source is Some && (source.unwrap() is Linear
            || source.unwrap() is LinearUnavailable)),
{
}

proof fn lemma_registered(s: Seq<TaskSource>, i: int, k: int)
    requires
        0 <= i,
    ensures
        i <= k < s.len() && s[k] !is Unregistered && (forall|j: int|
            i <= j < k ==> (#[trigger] s[j]) is Unregistered) ==> registered_from(s, i) == Some(k),
        (forall|j: int| i <= j < s.len() ==> (#[trigger] s[j]) is Unregistered)
            ==> registered_from(s, i) is None,
    decreases s.len() - i,
{
    if i < s.len() {
        lemma_registered(s, i + 1, k);
    }
}

/// A workspace's tracker is that of its declared identity; failing that of its directory,
/// and failing that of the first of its repositories that is registered.
pub proof fn the_declared_identity_decides(e: SourceEvidence, k: int)
    ensures
        e.identity !is Unregistered ==> source_of(e) == e.identity,
        e.identity is Unregistered && e.directory is Some && e.directory.unwrap() !is Unregistered
            ==> source_of(e) == e.directory.unwrap(),
        e.identity is Unregistered && (e.directory is None || e.directory.unwrap()
            is Unregistered) && 0 <= k < e.repos@.len() && e.repos@[k] !is Unregistered && (
        forall|j: int| 0 <= j < k ==> (#[trigger] e.repos@[j]) is Unregistered) ==> source_of(e)
            == e.repos@[k],
        e.identity is Unregistered && (e.directory is None || e.directory.unwrap()
            is Unregistered) && (forall|j: int|
            0 <= j < e.repos@.len() ==> (#[trigger] e.repos@[j]) is Unregistered) ==> source_of(e)
            is Unregistered,
{
    lemma_registered(e.repos@, 0, k);
}

proof fn lemma_group(s: Seq<GroupView>, p: Seq<char>, l: Seq<Seq<char>>, i: int)
    requires
        0 <= i,
    ensures
        match group_from(s, p, l, i) {
            Some(k) => i <= k < s.len() && s[k].project_id == p && s[k].labels == l && (forall|
                j: int,
            |
                i <= j < k ==> (#[trigger] s[j]).project_id != p || s[j].labels != l),
            None => forall|j: int|
                i <= j < s.len() ==> (#[trigger] s[j]).project_id != p || s[j].labels != l,
        },
    decreases s.len() - i,
{
    if i < s.len() {
        lemma_group(s, p, l, i + 1);
    }
}

/// A Linear workspace shows the answer to the query for its own project and labels, under
/// its own feature; incomplete coordinates are told, and others show no Linear rows.
pub proof fn a_workspace_shows_its_own_answer(
    groups: Seq<GroupView>,
    answers: Seq<Option<LinearAnswer>>,
    t: LinearTarget,
    g: int,
)
    requires
        0 <= g < groups.len(),
        g < answers.len(),
        groups[g].project_id == t.project_id@,
        groups[g].labels == views(t.labels@),
        forall|j: int|
            0 <= j < g ==> (#[trigger] groups[j]).project_id != t.project_id@ || groups[j].labels
                != views(t.labels@),
    ensures
        answers[g] is Some ==> {
            let v = view_for(groups, answers, Some(TaskSource::Linear(t)));
            &&& v is Some
            &&& v.unwrap().issues == answers[g].unwrap().issues@
            &&& v.unwrap().warning == opt_view(answers[g].unwrap().warning)
            &&& v.unwrap().project_id == t.project_id@
            &&& v.unwrap().labels == views(t.labels@)
            &&& v.unwrap().feature == opt_view(t.feature_name)
        },
        answers[g] is None ==> view_for(groups, answers, Some(TaskSource::Linear(t))) is None,
        ({
            let v = view_for(groups, answers, Some(TaskSource::LinearUnavailable));
            &&& v is Some
            &&& v.unwrap().issues.len() == 0
            &&& v.unwrap().warning == Some(
                "Linear unavailable: project registry coordinates are incomplete"@,
            )
        }),
        view_for(groups, answers, Some(TaskSource::Beads)) is None,
        view_for(groups, answers, Some(TaskSource::Unregistered)) is None,
        view_for(groups, answers, None) is None,
{
    lemma_group(groups, t.project_id@, views(t.labels@), 0);
    let k = group_from(groups, t.project_id@, views(t.labels@), 0);
    assert(k == Some(g)) by {
        if k is None {
            assert(groups[g].project_id != t.project_id@ || groups[g].labels != views(t.labels@));
        } else if k.unwrap() < g {
            assert(groups[k.unwrap()].project_id != t.project_id@ || groups[k.unwrap()].labels
                != views(t.labels@));
        } else if g < k.unwrap() {
            assert(groups[g].project_id != t.project_id@ || groups[g].labels != views(t.labels@));
        }
    }
}

// ---------------------------------------------------------------------------
// Intents
// ---------------------------------------------------------------------------

/// A finding tells what is bound to the surface, or what its log tells.
pub proof fn a_finding_tells_binding_or_log(f: SurfaceFinding)
    ensures
        f.route is NoAgent ==> told(f) is None,
        f.route is Bound ==> told(f) == Some(f.route->Bound_0),
        f.route is Lookup ==> told(f) == f.log,
{
}

proof fn lemma_intent_for(s: Seq<SurfaceFinding>, surface: Seq<char>, n: int, k: int)
    requires
        0 <= n <= s.len(),
    ensures
        0 <= k < n && s[k].surface_ref@ == surface && told(s[k]) is Some && (forall|j: int|
            k < j < n && (#[trigger] s[j]).surface_ref@ == surface ==> told(s[j]) is None)
            ==> intent_for(s, surface, n) == told(s[k]),
        (forall|j: int|
            0 <= j < n && (#[trigger] s[j]).surface_ref@ == surface ==> told(s[j]) is None)
            ==> intent_for(s, surface, n) is None,
    decreases n,
{
    if n > 0 {
        lemma_intent_for(s, surface, n - 1, k);
    }
}

/// Of several findings about a surface the last that tells something counts.
pub proof fn the_last_finding_counts(s: Seq<SurfaceFinding>, surface: Seq<char>, k: int)
    ensures
        0 <= k < s.len() && s[k].surface_ref@ == surface && told(s[k]) is Some && (forall|j: int|
            k < j < s.len() && (#[trigger] s[j]).surface_ref@ == surface ==> told(s[j]) is None)
            ==> intent_for(s, surface, s.len() as int) == told(s[k]),
        (forall|j: int|
            0 <= j < s.len() && (#[trigger] s[j]).surface_ref@ == surface ==> told(s[j]) is None)
            ==> intent_for(s, surface, s.len() as int) is None,
{
    lemma_intent_for(s, surface, s.len() as int, k);
}

// ---------------------------------------------------------------------------
// Remote sessions
// ---------------------------------------------------------------------------

/// A session that is not gone becomes stale and changes in nothing else; one that is gone
/// stays gone.
pub proof fn a_session_becomes_stale(r: RemoteSurfaceState)
    ensures
        r.freshness != RemoteFreshness::Gone ==> r.staled().freshness == RemoteFreshness::Stale,
        r.freshness == RemoteFreshness::Gone ==> r.staled() == r,
        r.staled().state == r.state,
        r.staled().agent == r.agent,
        r.staled().locator == r.locator,
        r.staled().launch_cwd == r.launch_cwd,
{
}

/// Sessions whose surface is still open are kept, in order, as stale; the others are
/// dropped.
pub proof fn sessions_of_open_surfaces_are_kept(
    s: Seq<(String, RemoteSurfaceState)>,
    surfaces: Seq<SurfaceInfo>,
    n: int,
    i: int,
)
    requires
        0 <= i < n <= s.len(),
    ensures
        ({
            let open = exists|j: int|
                0 <= j < surfaces.len() && (#[trigger] surfaces[j]).ref_id@ == s[i].0@;
            let at = retained(s, surfaces, i).len() as int;
            let all = retained(s, surfaces, n);
            &&& open ==> at < all.len() && all[at].0 == s[i].0 && all[at].1 == s[i].1.staled()
            &&& retained(s, surfaces, i + 1).len() == at + (if open {
                1int
            } else {
                0int
            })
            &&& all.len() >= retained(s, surfaces, i + 1).len()
        }),
    decreases n,
{
    if i < n - 1 {
        sessions_of_open_surfaces_are_kept(s, surfaces, n - 1, i);
    }
}

// ---------------------------------------------------------------------------
// Rebuilding
// ---------------------------------------------------------------------------

/// The user is busy with the document of the workspace.
pub open spec fn is_busy(w: WorkspaceState) -> bool {
    ||| w.edit_state is Some && w.edit_state.unwrap().mode is Insert
    ||| w.missions_pending
    ||| w.peek_state is Some
}

/// A refresh takes session, surfaces, trackers and notes from what was gathered, keeps what
/// only the dashboard knows, and reads the document from disk unless the user is busy with
/// it.
pub proof fn a_refresh_takes_what_was_gathered(
    snap: RefreshSnapshot,
    files: RefreshFiles,
    old: WorkspaceState,
    ws: Workspace,
    r: WorkspaceState,
)
    requires
        rebuilt(snap, files, Some(old), ws, 0, r),
    ensures
        r.workspace == ws,
        r.session == snap.sessions_by_ws_id.lookup(ws.uuid@),
        snap.surfaces_map.lookup(ws.ref_id@) is Some ==> r.surfaces@ == snap.surfaces_map.lookup(
            ws.ref_id@,
        ).unwrap()@,
        snap.surfaces_map.lookup(ws.ref_id@) is None ==> r.surfaces@.len() == 0,
        snap.linear_by_ws_id.lookup(ws.uuid@) is Some ==> r.linear is Some && r.beads is None,
        snap.linear_by_ws_id.lookup(ws.uuid@) is None ==> r.linear is None && r.beads
            == snap.beads_by_ws_id.lookup(ws.uuid@),
        r.mux_status == old.mux_status,
        r.screen_insights == old.screen_insights,
        r.screen_preview == old.screen_preview,
        r.tool_call_count == old.tool_call_count,
        r.edit_state == old.edit_state,
        r.regen == old.regen,
        r.dismissal == old.dismissal,
        r.missions_pending == old.missions_pending,
        r.notes == crate::app::useful(files.notes.lookup(ws.name@)),
        r.dispatch_modal is None,
        r.dispatch_pending_outcome is None,
        r.dispatch_error is None,
        r.linear_open_pending is None,
        is_busy(old) ==> doc_view(r.trajectory) == doc_view(old.trajectory),
        !is_busy(old) ==> doc_view(r.trajectory) == doc_view(files.trajectories.lookup(ws.uuid@)),
        snap.remote_mesh is Some && snap.remote_mesh.unwrap().lookup(ws.uuid@) is Some
            ==> r.remote_surfaces.entries@ == snap.remote_mesh.unwrap().lookup(
            ws.uuid@,
        ).unwrap().entries@,
        snap.remote_mesh is Some && snap.remote_mesh.unwrap().lookup(ws.uuid@) is None
            ==> r.remote_surfaces.entries@.len() == 0,
        snap.remote_mesh is None ==> r.remote_surfaces.entries@ == retained(
            old.remote_surfaces.entries@,
            r.surfaces@,
            old.remote_surfaces.entries@.len() as int,
        ),
{
}

/// A workspace that was not known before starts with nothing but what was gathered.
pub proof fn a_new_workspace_starts_fresh(
    snap: RefreshSnapshot,
    files: RefreshFiles,
    ws: Workspace,
    r: WorkspaceState,
)
    requires
        rebuilt(snap, files, None, ws, 0, r),
    ensures
        r.workspace == ws,
        r.session == snap.sessions_by_ws_id.lookup(ws.uuid@),
        doc_view(r.trajectory) == doc_view(files.trajectories.lookup(ws.uuid@)),
        r.tool_call_count == 0,
        r.mux_status is None,
        r.edit_state is None,
        r.peek_state is None,
        !r.missions_pending,
        r.regen.events_since_last_regen == 0 && r.regen.last_regen_at is None
            && !r.regen.regen_in_flight,
        !r.dismissal.dismissing && r.dismissal.grace_started_at is None,
{
}

proof fn lemma_mission_rows(ls: Seq<Seq<char>>, n: int)
    requires
        0 <= n <= ls.len(),
    ensures
        mission_rows(ls, n) == ls.take(n).filter(|l: Seq<char>| trim(l).len() > 0).map_values(
            |l: Seq<char>|
                (ItemView {
                    text: trim(l),
                    is_checkbox: true,
                    checked: Some(false),
                    surface_id: None,
                }),
        ),
    decreases n,
{
    reveal(Seq::filter);
    let p = |l: Seq<char>| trim(l).len() > 0;
    let g = |l: Seq<char>|
        (ItemView { text: trim(l), is_checkbox: true, checked: Some(false), surface_id: None });
    if n > 0 {
        lemma_mission_rows(ls, n - 1);
        assert(ls.take(n).drop_last() =~= ls.take(n - 1));
        assert(ls.take(n).last() == ls[n - 1]);
        let before = ls.take(n - 1).filter(p);
        assert(before.push(ls[n - 1]).map_values(g) =~= before.map_values(g).push(g(ls[n - 1])));
    } else {
        assert(ls.take(0).len() == 0);
        assert(ls.take(0).filter(p).map_values(g) =~= Seq::empty());
    }
}

/// A description names one open mission on each of its lines that is not blank.
pub proof fn a_description_names_a_mission_a_line(d: String)
    ensures
        described_missions(Some(d)) == lines(d@).filter(
            |l: Seq<char>| trim(l).len() > 0,
        ).map_values(
            |l: Seq<char>|
                (ItemView {
                    text: trim(l),
                    is_checkbox: true,
                    checked: Some(false),
                    surface_id: None,
                }),
        ),
        described_missions(None).len() == 0,
{
    lemma_mission_rows(lines(d@), lines(d@).len() as int);
    assert(lines(d@).take(lines(d@).len() as int) =~= lines(d@));
}

// ---------------------------------------------------------------------------
// Putting it together
// ---------------------------------------------------------------------------

/// The explanations that are looked back on are the latest by number, the oldest first.
pub proof fn the_latest_explanations_are_read(files: Seq<FileView>, n: int)
    requires
        0 <= n,
    ensures
        ({
            let all = numbered_in_order(files, ""@, Some("txt"@));
            let latest = if all.len() > n {
                all.skip(all.len() - n)
            } else {
                all
            };
            recent_explanations(files, n) == latest.filter(|e: Numbered| e.1 is Some).map_values(
                |e: Numbered| e.1.unwrap(),
            )
        }),
{
    let all = numbered_in_order(files, ""@, Some("txt"@));
    let latest = last_of(all, n);
    lemma_readable(latest, latest.len() as int);
    assert(latest.take(latest.len() as int) =~= latest);
}

proof fn lemma_first_window_ref(s: Seq<Workspace>, i: int, k: int)
    requires
        0 <= i,
    ensures
        i <= k < s.len() && s[k].window_ref is Some && (forall|j: int|
            i <= j < k ==> (#[trigger] s[j]).window_ref is None) ==> first_window_ref(s, i)
            == opt_view(s[k].window_ref),
        (forall|j: int| i <= j < s.len() ==> (#[trigger] s[j]).window_ref is None)
            ==> first_window_ref(s, i) is None,
    decreases s.len() - i,
{
    if i < s.len() {
        lemma_first_window_ref(s, i + 1, k);
    }
}

/// The surfaces are asked for in the first window that a workspace names.
pub proof fn the_first_window_is_asked(s: Seq<Workspace>, k: int)
    ensures
        0 <= k < s.len() && s[k].window_ref is Some && (forall|j: int|
            0 <= j < k ==> (#[trigger] s[j]).window_ref is None) ==> first_window_ref(s, 0)
            == opt_view(s[k].window_ref),
        (forall|j: int| 0 <= j < s.len() ==> (#[trigger] s[j]).window_ref is None)
            ==> first_window_ref(s, 0) is None,
{
    lemma_first_window_ref(s, 0, k);
}

/// Surfaces are relied on when they were read, no workspace is missing and there are some;
/// otherwise the first thing that is wrong is told.
pub proof fn unreliable_surfaces_are_told(r: SurfaceReport)
    ensures
        r.is_reliable() <==> !r.unread && r.missing@.len() == 0 && !r.empty,
        r.is_reliable() <==> r.failure() is None,
        r.unread ==> r.failure() == Some("get cmux surfaces"@),
        !r.unread && r.missing@.len() > 0 ==> r.failure() == Some(
            "cmux tree missing workspaces from current window: "@ + join(views(r.missing@), ", "@),
        ),
        !r.unread && r.missing@.len() == 0 && r.empty ==> r.failure() == Some(
            "cmux tree reported no surfaces for current window"@,
        ),
{
}

/// The transcripts of the surfaces that have one are listed in their order.
pub proof fn transcripts_keep_their_order(
    s: Seq<SurfaceInfo>,
    kinds: Seq<SurfaceKind>,
    bound: Assoc<BoundTranscript>,
    n: int,
    i: int,
)
    requires
        0 <= i < n <= s.len(),
    ensures
        ({
            let at = transcripts(s, kinds, bound, i).len() as int;
            let all = transcripts(s, kinds, bound, n);
            let t = transcript_of(s[i], kinds[i], bound);
            &&& t is Some ==> at < all.len() && all[at] == t.unwrap()
            &&& transcripts(s, kinds, bound, i + 1).len() == at + (if t is Some {
                1int
            } else {
                0int
            })
            &&& all.len() >= transcripts(s, kinds, bound, i + 1).len()
        }),
    decreases n,
{
    if i < n - 1 {
        transcripts_keep_their_order(s, kinds, bound, n - 1, i);
    }
}

proof fn lemma_last_source(s: Seq<SourceEvidence>, registry: bool, id: Seq<char>, n: int, k: int)
    requires
        0 <= n <= s.len(),
    ensures
        0 <= k < n && s[k].workspace_id@ == id && (forall|j: int|
            k < j < n ==> (#[trigger] s[j]).workspace_id@ != id) ==> last_source(
            s,
            registry,
            id,
            n,
        ) == Some(
            if registry {
                source_of(s[k])
            } else {
                TaskSource::Unregistered
            },
        ),
        (forall|j: int| 0 <= j < n ==> (#[trigger] s[j]).workspace_id@ != id) ==> last_source(
            s,
            registry,
            id,
            n,
        ) is None,
    decreases n,
{
    if n > 0 {
        lemma_last_source(s, registry, id, n - 1, k);
    }
}

/// A workspace's tracker comes from the evidence about that workspace, the last if there is
/// more, and without a registry it has none.
pub proof fn a_workspaces_evidence_decides(
    s: Seq<SourceEvidence>,
    registry: bool,
    id: Seq<char>,
    k: int,
)
    requires
        0 <= k < s.len(),
        s[k].workspace_id@ == id,
        forall|j: int| k < j < s.len() ==> (#[trigger] s[j]).workspace_id@ != id,
    ensures
        registry ==> last_source(s, registry, id, s.len() as int) == Some(source_of(s[k])),
        !registry ==> last_source(s, registry, id, s.len() as int) == Some(
            TaskSource::Unregistered,
        ),
{
    lemma_last_source(s, registry, id, s.len() as int, k);
}

/// One of the groups asks for the project and labels on behalf of the target.
pub open spec fn asks_for(
    s: Seq<GroupView>,
    project: Seq<char>,
    labels: Seq<Seq<char>>,
    target: (Seq<char>, Option<Seq<char>>),
) -> bool {
    exists|g: int|
        0 <= g < s.len() && (#[trigger] s[g]).project_id == project && s[g].labels == labels
            && s[g].targets.contains(target)
}

/// Every Linear workspace is asked for with its own project and labels, under its own
/// feature.
pub proof fn every_workspace_is_in_its_group(s: Seq<(String, TaskSource)>, n: int, i: int)
    requires
        0 <= i < n <= s.len(),
        s[i].1 is Linear,
    ensures
        asks_for(
            grouped(s, n),
            s[i].1->Linear_0.project_id@,
            views(s[i].1->Linear_0.labels@),
            (s[i].0@, opt_view(s[i].1->Linear_0.feature_name)),
        ),
    decreases n,
{
    let t = s[i].1->Linear_0;
    let p = t.project_id@;
    let l = views(t.labels@);
    let target = (s[i].0@, opt_view(t.feature_name));
    let before = grouped(s, n - 1);
    let now = grouped(s, n);
    if i < n - 1 {
        every_workspace_is_in_its_group(s, n - 1, i);
        let g = choose|g: int|
            0 <= g < before.len() && (#[trigger] before[g]).project_id == p && before[g].labels
                == l && before[g].targets.contains(target);
        if s[n - 1].1 is Linear {
            let u = s[n - 1].1->Linear_0;
            lemma_group(before, u.project_id@, views(u.labels@), 0);
            let m = choose|m: int|
                0 <= m < before[g].targets.len() && before[g].targets[m] == target;
            assert(now[g].targets[m] == target);
        }
        assert(now[g].project_id == p && now[g].labels == l && now[g].targets.contains(target));
    } else {
        lemma_group(before, p, l, 0);
        match group_from(before, p, l, 0) {
            Some(g) => {
                assert(now[g].targets[before[g].targets.len() as int] == target);
                assert(now[g].project_id == p && now[g].labels == l);
            },
            None => {
                let g = before.len() as int;
                assert(now[g].targets[0] == target);
                assert(now[g].project_id == p && now[g].labels == l);
            },
        }
    }
}

/// A snapshot holds, for each workspace, its first session file, the Beads rows unless
/// Linear keeps its tasks, and the intents of its surfaces.
pub proof fn a_snapshot_holds_what_was_found(
    g: Gathered,
    snap: RefreshSnapshot,
    uuid: Seq<char>,
    surface: Seq<char>,
    f: int,
)
    requires
        assembled(g, snap),
    ensures
        snap.workspaces == g.workspaces,
        g.surfaces is Some ==> snap.surfaces_map == g.surfaces.unwrap(),
        g.surfaces is None ==> snap.surfaces_map.entries@.len() == 0,
        snap.remote_mesh == g.mesh,
        snap.mesh_warning == g.mesh_warning,
        (forall|i: int|
            0 <= i < g.workspaces@.len() ==> (#[trigger] g.workspaces@[i]).uuid@ != uuid)
            ==> snap.sessions_by_ws_id.lookup(uuid) is None,
        (exists|i: int| 0 <= i < g.workspaces@.len() && (#[trigger] g.workspaces@[i]).uuid@ == uuid)
            && 0 <= f < g.session_files@.len() && opt_view(
            g.session_files@[f].frontmatter.workspace_id,
        ) == Some(uuid) && (forall|j: int|
            0 <= j < f ==> opt_view((#[trigger] g.session_files@[j]).frontmatter.workspace_id)
                != Some(uuid)) ==> snap.sessions_by_ws_id.lookup(uuid) == Some(
            g.session_files@[f],
        ),
        g.sources.lookup(uuid) is Some && g.sources.lookup(uuid).unwrap() is Linear
            ==> snap.beads_by_ws_id.lookup(uuid) is None,
        g.sources.lookup(uuid) is None || g.sources.lookup(uuid).unwrap() is Beads
            ==> snap.beads_by_ws_id.lookup(uuid) == g.beads.lookup(uuid),
        g.findings.lookup(uuid) is Some && snap.surface_intents_by_ws_id.lookup(uuid) is Some
            ==> snap.surface_intents_by_ws_id.lookup(uuid).unwrap().lookup(surface) == intent_for(
            g.findings.lookup(uuid).unwrap()@,
            surface,
            g.findings.lookup(uuid).unwrap()@.len() as int,
        ),
{
    lemma_session_from(g.session_files@, uuid, 0, f);
    let b = snap.beads_by_ws_id.lookup(uuid);
    let s = snap.sessions_by_ws_id.lookup(uuid);
    let t = snap.surface_intents_by_ws_id.lookup(uuid);
}

/// Incomplete coordinates are told in place of issues.
pub proof fn incomplete_coordinates_are_told(
    groups: Seq<GroupView>,
    answers: Seq<Option<LinearAnswer>>,
)
    ensures
        ({
            let v = view_for(groups, answers, Some(TaskSource::LinearUnavailable));
            &&& v is Some
            &&& v.unwrap().issues.len() == 0
            &&& v.unwrap().warning == Some(
                "Linear unavailable: project registry coordinates are incomplete"@,
            )
        }),
{
}

/// There are no surfaces when there are workspaces and none of them has one.
pub proof fn missing_surfaces_are_noticed(
    s: Seq<Workspace>,
    map: Assoc<Vec<SurfaceInfo>>,
    k: int,
)
    ensures
        s.len() == 0 ==> !none_found(s, None) && !none_found(s, Some(map)),
        s.len() > 0 ==> none_found(s, None),
        0 <= k < map.entries@.len() && map.entries@[k].1@.len() > 0 ==> !none_found(s, Some(map)),
        s.len() > 0 && (forall|i: int|
            0 <= i < map.entries@.len() ==> (#[trigger] map.entries@[i]).1@.len() == 0)
            ==> none_found(s, Some(map)),
{
}

/// What the surfaces' files point to, without the blanks around it.
pub proof fn session_files_are_pointed_to(files: Seq<FileView>, k: int)
    requires
        0 <= k < contents_of(files, "session-path"@, files.len() as int).len(),
    ensures
        pointed(files).len() == contents_of(files, "session-path"@, files.len() as int).len(),
        pointed(files)[k] == trim(contents_of(files, "session-path"@, files.len() as int)[k]),
{
}

proof fn lemma_trimmed(s: Seq<Seq<char>>, n: int)
    requires
        0 <= n <= s.len(),
    ensures
        trimmed(s, n) == s.take(n).map_values(|t: Seq<char>| trim(t)).filter(
            |t: Seq<char>| t.len() > 0,
        ),
    decreases n,
{
    reveal(Seq::filter);
    let all = s.take(n).map_values(|t: Seq<char>| trim(t));
    if n > 0 {
        lemma_trimmed(s, n - 1);
        assert(all.drop_last() =~= s.take(n - 1).map_values(|t: Seq<char>| trim(t)));
        assert(all.last() == trim(s[n - 1]));
    }
}

/// Summaries are taken without the blanks around them, and blank ones not at all.
pub proof fn blank_summaries_are_left_out(s: Seq<Seq<char>>)
    ensures
        trimmed(s, s.len() as int) == s.map_values(|t: Seq<char>| trim(t)).filter(
            |t: Seq<char>| t.len() > 0,
        ),
{
    lemma_trimmed(s, s.len() as int);
    assert(s.take(s.len() as int) =~= s);
}

/// Rows are given to the first workspace with the identity. Where that one takes Linear
/// rows, the Beads rows go to the second.
pub proof fn rows_are_given_once(snap: RefreshSnapshot, uuid: Seq<char>, n: int)
    requires
        1 < n,
    ensures
        given_linear(snap, uuid, 0) == snap.linear_by_ws_id.lookup(uuid),
        given_linear(snap, uuid, 1) is None,
        given_linear(snap, uuid, n) is None,
        snap.linear_by_ws_id.lookup(uuid) is Some ==> given_beads(snap, uuid, 0) is None
            && given_beads(snap, uuid, 1) == snap.beads_by_ws_id.lookup(uuid),
        snap.linear_by_ws_id.lookup(uuid) is None ==> given_beads(snap, uuid, 0)
            == snap.beads_by_ws_id.lookup(uuid) && given_beads(snap, uuid, 1) is None,
        given_beads(snap, uuid, n) is None,
{
    lemma_key_from(snap.linear_by_ws_id.entries@, uuid, 0);
}

/// Of workspaces with the same identity only the first has a state.
pub proof fn only_the_first_workspace_has_the_state(
    s: Seq<WorkspaceState>,
    sessions: Seq<(String, String)>,
    states: Seq<MuxSessionState>,
    i: int,
    j: int,
    e: int,
    r: WorkspaceState,
)
    requires
        took_states(s, sessions, states, i, r),
        0 <= j < i < s.len(),
        s[j].workspace.uuid@ == s[i].workspace.uuid@,
        0 <= e < sessions.len(),
        sessions[e].1@ == s[i].workspace.uuid@,
    ensures
        r.mux_status is None,
{
}

} // verus!
