//! How tasks, repositories and surfaces become rows.
use crate::app::highlighted_repo;
use crate::assoc::{lemma_key_from, Assoc};
use crate::beads::{last_target, loaded_roots, repo_paths, targets_of, BeadsRefreshTarget};
use crate::intent::{told_intent, ConversationIntent};
use crate::mesh::RemoteFreshness;
use crate::numeral::decimal;
use crate::projection::{
    follow_up, goal_rows, id_of, ids_taken, own_facts, projected, projection_changes, row_of,
    rows_of, surface_items, task_plan, wants_prefix, GoalFacts, GoalsInput, RowText, SurfaceFacts,
};
use crate::surface::SurfaceKind;
use crate::tasks::{
    bead_line, beads_rows, file_name, hyphenated, is_projected, last_slash, linear_line,
    linear_rows, no_trailing_slash, own_rows, repo_at, repo_name, repo_rows, repos_rows, stripped,
    with_last_good, BeadIssue, BeadsSource, LinearIssue, LinearView, RepoBeadsView,
};
use crate::text::{trim, views};
use crate::text_laws::is_tight;
use crate::trajectory::{rows_named, ItemView};
use crate::trajectory_edit::EditMode;
use crate::workspace::WorkspaceState;
use vstd::prelude::*;

verus! {

// ---------------------------------------------------------------------------
// Issues
// ---------------------------------------------------------------------------

/// The row of a Linear issue tells priority, identifier, state and title, in this order.
pub proof fn a_linear_issue_is_told_in_order(i: LinearIssue)
    ensures
        linear_line(i) == "[P"@ + decimal(i.priority as nat) + "] "@ + i.identifier@ + " "@
            + hyphenated(i.state_name@) + " · "@ + i.title@,
{
    reveal_strlit("[P");
    reveal_strlit("[");
    reveal_strlit("P");
    assert("["@ + ("P"@ + decimal(i.priority as nat)) =~= "[P"@ + decimal(i.priority as nat));
}

/// The row of a Beads issue tells the same; a missing priority is a question mark.
pub proof fn a_bead_is_told_in_order(i: BeadIssue)
    ensures
        i.priority is Some ==> bead_line(i) == "[P"@ + decimal(i.priority.unwrap() as nat) + "] "@
            + i.id@ + " "@ + hyphenated(i.status@) + " · "@ + i.title@,
        i.priority is None ==> bead_line(i) == "[P?"@ + "] "@ + i.id@ + " "@ + hyphenated(i.status@)
            + " · "@ + i.title@,
{
    reveal_strlit("[P");
    reveal_strlit("[P?");
    reveal_strlit("P?");
    reveal_strlit("[");
    reveal_strlit("P");
    if i.priority is Some {
        let d = decimal(i.priority.unwrap() as nat);
        assert("["@ + ("P"@ + d) =~= "[P"@ + d);
    }
    assert("["@ + "P?"@ =~= "[P?"@);
}

/// A state is shown with hyphens for underscores and is the same otherwise.
pub proof fn underscores_become_hyphens(s: Seq<char>, i: int)
    requires
        0 <= i < s.len(),
    ensures
        hyphenated(s).len() == s.len(),
        s[i] == '_' ==> hyphenated(s)[i] == '-',
        s[i] != '_' ==> hyphenated(s)[i] == s[i],
{
}

// ---------------------------------------------------------------------------
// Linear rows
// ---------------------------------------------------------------------------

/// A row that is only read.
pub open spec fn is_read_only(i: ItemView, text: Seq<char>) -> bool {
    i.text == text && !i.is_checkbox && i.checked is None && i.surface_id is None
}

/// A Linear view shows its feature, then its issues in order, and says when they are not
/// current; without issues it says why.
pub proof fn linear_issues_are_listed(v: LinearView, k: int)
    ensures
        ({
            let rows = linear_rows(v);
            let top = if v.feature is Some {
                1int
            } else {
                0int
            };
            &&& v.feature is Some ==> is_read_only(rows[0], "feature: "@ + v.feature.unwrap())
            &&& 0 <= k < v.issues.len() ==> is_read_only(rows[top + k], linear_line(v.issues[k]))
            &&& v.issues.len() > 0 && v.warning is None ==> rows.len() == top + v.issues.len()
            &&& v.issues.len() > 0 && v.warning is Some ==> rows.len() == top + v.issues.len() + 1
                && rows.last().text == "  (stale — Linear refresh unavailable)"@
            &&& v.issues.len() == 0 && v.warning is None ==> rows.len() == top + 1
                && rows.last().text == "No active Linear issues"@
            &&& v.issues.len() == 0 && v.warning is Some ==> rows.len() == top + 1
                && rows.last().text == "  ("@ + v.warning.unwrap() + ")"@
        }),
{
}

/// A failed refresh of the same project, labels and feature keeps the issues that were
/// known, and its warning; any other view is taken as it is.
pub proof fn a_failed_refresh_keeps_the_issues(v: LinearView, p: LinearView)
    ensures
        with_last_good(v, None) == v,
        v.warning is None ==> with_last_good(v, Some(p)) == v,
        v.issues.len() > 0 ==> with_last_good(v, Some(p)) == v,
        v.project_id != p.project_id || v.labels != p.labels || v.feature != p.feature
            ==> with_last_good(v, Some(p)) == v,
        v.warning is Some && v.issues.len() == 0 && v.project_id == p.project_id && v.labels
            == p.labels && v.feature == p.feature ==> with_last_good(v, Some(p)).issues == p.issues
            && with_last_good(v, Some(p)).warning == v.warning,
{
    if v.issues.len() == 0 && p.issues.len() == 0 {
        assert(v.issues =~= p.issues);
    }
}

// ---------------------------------------------------------------------------
// Beads rows
// ---------------------------------------------------------------------------

proof fn lemma_no_slash(s: Seq<char>, n: nat)
    requires
        s.len() > 0 ==> s.last() != '/',
    ensures
        no_trailing_slash(s + Seq::new(n, |i: int| '/')) == s,
    decreases n,
{
    let t = s + Seq::new(n, |i: int| '/');
    if n > 0 {
        assert(t.last() == '/');
        assert(t.drop_last() =~= s + Seq::new((n - 1) as nat, |i: int| '/'));
        lemma_no_slash(s, (n - 1) as nat);
    } else {
        assert(t =~= s);
    }
}

proof fn lemma_last_slash(a: Seq<char>, name: Seq<char>, n: int)
    requires
        !name.contains('/'),
        a.len() < n <= a.len() + 1 + name.len(),
    ensures
        last_slash(a + seq!['/'] + name, n) == a.len(),
    decreases n,
{
    let t = a + seq!['/'] + name;
    if n - 1 > a.len() {
        assert(t[n - 1] == name[n - 2 - a.len()]);
        assert(name.contains(name[n - 2 - a.len()]));
        lemma_last_slash(a, name, n - 1);
    } else {
        assert(t[n - 1] == '/');
    }
}

/// A repository is named after the last part of its path, whatever slashes follow it.
pub proof fn a_repository_is_named_after_its_folder(a: Seq<char>, name: Seq<char>, slashes: nat)
    requires
        name.len() > 0,
        !name.contains('/'),
        name != "."@,
        name != ".."@,
    ensures
        repo_name(a + seq!['/'] + name + Seq::new(slashes, |i: int| '/')) == name,
{
    let t = a + seq!['/'] + name;
    let p = t + Seq::new(slashes, |i: int| '/');
    assert(t.last() == name.last());
    assert(name.contains(name.last()));
    lemma_no_slash(t, slashes);
    lemma_last_slash(a, name, t.len() as int);
    assert(t.skip(a.len() + 1int) =~= name);
    assert(file_name(p) == Some(name));
}

/// A repository shows its name, then its issues in order, each with a box that is checked
/// exactly when the issue is closed.
pub proof fn a_closed_issue_is_checked(repo: RepoBeadsView, k: int)
    requires
        0 <= k < repo.issues@.len(),
    ensures
        ({
            let rows = repo_rows(repo);
            let i = repo.issues@[k];
            &&& rows.len() == 1 + repo.issues@.len()
            &&& is_read_only(rows[0], "repo: "@ + repo_name(repo.repo_path@))
            &&& rows[1 + k].text == bead_line(i)
            &&& rows[1 + k].is_checkbox
            &&& i.closed ==> rows[1 + k].checked == Some(true)
            &&& !i.closed ==> rows[1 + k].checked == Some(false)
        }),
{
}

/// A repository without issues says whether there are none or they could not be read.
pub proof fn an_empty_repository_says_why(repo: RepoBeadsView)
    requires
        repo.issues@.len() == 0,
    ensures
        repo_rows(repo).len() == 2,
        repo.source == BeadsSource::Unavailable ==> repo_rows(repo)[1].text
            == "  (beads unavailable — bd db empty and no issues.jsonl)"@,
        repo.source == BeadsSource::Available ==> repo_rows(repo)[1].text
            == "  (no active beads)"@,
{
}

proof fn lemma_repos(repos: Seq<RepoBeadsView>, skip: int, n: int, k: int, j: int)
    requires
        0 <= k < n <= repos.len(),
        k != skip,
        0 <= j < repo_rows(repos[k]).len(),
    ensures
        repos_rows(repos, skip, k).len() + j < repos_rows(repos, skip, n).len(),
        repos_rows(repos, skip, n)[repos_rows(repos, skip, k).len() + j] == repo_rows(repos[k])[j],
    decreases n,
{
    if k < n - 1 {
        lemma_repos(repos, skip, n - 1, k, j);
    }
}

proof fn lemma_repo_at(repos: Seq<RepoBeadsView>, path: Seq<char>, i: int, p: int)
    requires
        0 <= i,
    ensures
        i <= p < repos.len() && repos[p].repo_path@ == path && (forall|j: int|
            i <= j < p ==> (#[trigger] repos[j]).repo_path@ != path) ==> repo_at(repos, path, i)
            == Some(p),
        (forall|j: int| i <= j < repos.len() ==> (#[trigger] repos[j]).repo_path@ != path)
            ==> repo_at(repos, path, i) is None,
    decreases repos.len() - i,
{
    if i < repos.len() {
        lemma_repo_at(repos, path, i + 1, p);
    }
}

/// How many rows the repositories before `k` take, repository `skip` left out.
pub open spec fn rows_before(repos: Seq<RepoBeadsView>, skip: int, k: int) -> int
    decreases k,
{
    if k <= 0 {
        0
    } else if k - 1 == skip {
        rows_before(repos, skip, k - 1)
    } else {
        rows_before(repos, skip, k - 1) + repo_rows(repos[k - 1]).len()
    }
}

proof fn lemma_rows_before(repos: Seq<RepoBeadsView>, skip: int, k: int)
    ensures
        rows_before(repos, skip, k) == repos_rows(repos, skip, k).len(),
    decreases k,
{
    if k > 0 {
        lemma_rows_before(repos, skip, k - 1);
    }
}

/// The repository of the highlighted surface comes first; the others follow in their
/// order.
pub proof fn the_highlighted_repository_comes_first(
    repos: Seq<RepoBeadsView>,
    path: Seq<char>,
    p: int,
    k: int,
    j: int,
)
    requires
        0 <= p < repos.len(),
        repos[p].repo_path@ == path,
        forall|i: int| 0 <= i < p ==> (#[trigger] repos[i]).repo_path@ != path,
        0 <= k < repos.len(),
        0 <= j < repo_rows(repos[k]).len(),
    ensures
        ({
            let rows = beads_rows(repos, Some(path));
            let first = repo_rows(repos[p]).len();
            &&& rows.len() == first + rows_before(repos, p, repos.len() as int)
            &&& k == p ==> rows[j] == repo_rows(repos[p])[j]
            &&& k != p ==> rows[first + rows_before(repos, p, k) + j] == repo_rows(repos[k])[j]
        }),
{
    lemma_repo_at(repos, path, 0, p);
    lemma_rows_before(repos, p, k);
    lemma_rows_before(repos, p, repos.len() as int);
    if k != p {
        lemma_repos(repos, p, repos.len() as int, k, j);
    }
}

/// Without a highlighted repository all stand in their order; without any there is a note.
pub proof fn repositories_keep_their_order(
    repos: Seq<RepoBeadsView>,
    highlighted: Option<Seq<char>>,
    k: int,
    j: int,
)
    requires
        highlighted is None || (forall|i: int|
            0 <= i < repos.len() ==> (#[trigger] repos[i]).repo_path@ != highlighted.unwrap()),
    ensures
        ({
            let rows = beads_rows(repos, highlighted);
            &&& repos.len() == 0 ==> rows.len() == 1 && rows[0].text == "No active beads"@
            &&& repos.len() > 0 ==> rows.len() == rows_before(repos, -1, repos.len() as int)
            &&& 0 <= k < repos.len() && 0 <= j < repo_rows(repos[k]).len() ==> rows[rows_before(
                repos,
                -1,
                k,
            ) + j] == repo_rows(repos[k])[j]
        }),
{
    if highlighted is Some {
        lemma_repo_at(repos, highlighted.unwrap(), 0, 0);
    }
    lemma_rows_before(repos, -1, k);
    lemma_rows_before(repos, -1, repos.len() as int);
    if 0 <= k < repos.len() && 0 <= j < repo_rows(repos[k]).len() {
        lemma_repos(repos, -1, repos.len() as int, k, j);
    }
}

// ---------------------------------------------------------------------------
// The user's own rows
// ---------------------------------------------------------------------------

proof fn lemma_own(items: Seq<ItemView>, n: int)
    requires
        0 <= n <= items.len(),
    ensures
        own_rows(items, n) == items.take(n).filter(|i: ItemView| !is_projected(i.text)),
    decreases n,
{
    reveal(Seq::filter);
    if n > 0 {
        lemma_own(items, n - 1);
        assert(items.take(n).drop_last() =~= items.take(n - 1));
        assert(items.take(n).last() == items[n - 1]);
    } else {
        assert(items.take(0).len() == 0);
    }
}

/// Stripping leaves exactly the rows that no tracker projected, in order.
pub proof fn stripping_leaves_the_users_rows(items: Seq<ItemView>)
    ensures
        stripped(items) == items.filter(|i: ItemView| !is_projected(i.text)),
{
    lemma_own(items, items.len() as int);
    assert(items.take(items.len() as int) =~= items);
}

/// A goal that begins with none of the words of a projected row is the user's.
pub proof fn an_ordinary_goal_is_the_users(text: Seq<char>)
    requires
        is_tight(text),
        text.len() > 0,
        text[0] != '[' && text[0] != '(' && text[0] != 'r' && text[0] != 'f' && text[0] != 'N'
            && text[0] != 'B',
    ensures
        !is_projected(text),
{
    reveal_strlit("[P");
    reveal_strlit("repo: ");
    reveal_strlit("feature: ");
    reveal_strlit("No active beads");
    reveal_strlit("Beads unavailable");
    reveal_strlit("(no active beads)");
    reveal_strlit("(beads unavailable");
    reveal_strlit("No active Linear issues");
    reveal_strlit("(Linear unavailable");
    reveal_strlit("(stale — Linear refresh unavailable)");
    assert(!crate::text::is_space(text[0]));
    let t = crate::text::trim_start(text);
    assert(t == text);
    assert forall|p: Seq<char>| p.len() > 0 && #[trigger] crate::search::starts_with(
        t,
        p,
    ) implies t[0] == p[0] by {
        assert(t.subrange(0, p.len() as int)[0] == p[0]);
    }
}

// ---------------------------------------------------------------------------
// Surface rows
// ---------------------------------------------------------------------------

/// A surface that is bound to a session on another device shows that session, unless it is
/// gone; then it has no row.
pub proof fn a_bound_surface_shows_its_session(
    w: WorkspaceState,
    facts: Seq<SurfaceFacts>,
    inferred: Assoc<ConversationIntent>,
    i: int,
    j: int,
)
    requires
        0 <= i < w.surfaces@.len(),
        w.remote_surfaces.well_formed(),
        0 <= j < w.remote_surfaces.entries@.len(),
        w.remote_surfaces.entries@[j].0@ == w.surfaces@[i].ref_id@,
    ensures
        ({
            let r = row_of(w, facts, inferred, i);
            let gone = w.remote_surfaces.entries@[j].1.freshness == RemoteFreshness::Gone;
            &&& gone ==> r is None
            &&& !gone ==> r is Some && r.unwrap().surface_ref@ == w.surfaces@[i].ref_id@
                && r.unwrap().kind == facts[i].remote_kind && r.unwrap().title
                == facts[i].remote_title && r.unwrap().intent is None
        }),
{
    lemma_key_from(w.remote_surfaces.entries@, w.surfaces@[i].ref_id@, 0);
    let k = crate::assoc::key_from(w.remote_surfaces.entries@, w.surfaces@[i].ref_id@, 0);
    if k is Some && k.unwrap() < j {
        assert(w.remote_surfaces.entries@[k.unwrap()].0@ != w.remote_surfaces.entries@[j].0@);
    }
}

/// Any other surface shows its own title and kind; a remote client what was inferred for
/// it, and an agent its intent.
pub proof fn a_free_surface_shows_itself(
    w: WorkspaceState,
    facts: Seq<SurfaceFacts>,
    inferred: Assoc<ConversationIntent>,
    i: int,
)
    requires
        0 <= i < w.surfaces@.len(),
        forall|j: int|
            0 <= j < w.remote_surfaces.entries@.len() ==> (
            #[trigger] w.remote_surfaces.entries@[j]).0@ != w.surfaces@[i].ref_id@,
    ensures
        ({
            let s = w.surfaces@[i];
            let f = facts[i];
            let r = row_of(w, facts, inferred, i);
            &&& r is Some
            &&& r.unwrap().surface_ref == s.ref_id
            &&& r.unwrap().kind == f.effective
            &&& r.unwrap().title == s.title
            &&& f.effective == SurfaceKind::Remote ==> r.unwrap().intent == inferred.lookup(
                s.ref_id@,
            )
            &&& f.effective != SurfaceKind::Remote ==> r.unwrap().intent == told_intent(
                f.resolved,
                f.session,
                f.screen_ask,
                s.focused,
                f.effective,
                f.goal,
            )
        }),
{
    lemma_key_from(w.remote_surfaces.entries@, w.surfaces@[i].ref_id@, 0);
}

/// The rows of surfaces stand in the order of the surfaces.
pub proof fn surface_rows_keep_their_order(
    w: WorkspaceState,
    facts: Seq<SurfaceFacts>,
    inferred: Assoc<ConversationIntent>,
    n: int,
    i: int,
)
    requires
        0 <= i < n <= w.surfaces@.len(),
    ensures
        ({
            let at = rows_of(w, facts, inferred, i).len() as int;
            let all = rows_of(w, facts, inferred, n);
            let r = row_of(w, facts, inferred, i);
            &&& r is Some ==> at < all.len() && all[at] == r.unwrap()
            &&& rows_of(w, facts, inferred, i + 1).len() == at + (if r is Some {
                1int
            } else {
                0int
            })
            &&& all.len() >= rows_of(w, facts, inferred, i + 1).len()
        }),
    decreases n,
{
    if i < n - 1 {
        surface_rows_keep_their_order(w, facts, inferred, n - 1, i);
    }
}

/// A row of the section shows its text and leads to its surface; it has no box.
pub proof fn a_surface_row_leads_to_its_surface(rows: Seq<RowText>, k: int)
    requires
        0 <= k < rows.len(),
    ensures
        surface_items(rows).len() == rows.len(),
        surface_items(rows)[k].text == rows[k].text@,
        surface_items(rows)[k].surface_id == Some(rows[k].surface_ref@),
        !surface_items(rows)[k].is_checkbox,
        surface_items(rows)[k].checked is None,
{
}

// ---------------------------------------------------------------------------
// Goal rows
// ---------------------------------------------------------------------------

/// The goal gets an identifier that it does not have yet.
pub open spec fn wants_id(f: GoalFacts) -> bool {
    trim(f.raw@).len() > 0 && f.id is None
}

proof fn lemma_ids_taken(facts: Seq<GoalFacts>, n: int)
    requires
        0 <= n <= facts.len(),
    ensures
        ids_taken(facts, true, n) == facts.take(n).filter(|f: GoalFacts| wants_id(f)).len(),
        ids_taken(facts, false, n) == 0,
    decreases n,
{
    reveal(Seq::filter);
    if n > 0 {
        lemma_ids_taken(facts, n - 1);
        assert(facts.take(n).drop_last() =~= facts.take(n - 1));
        assert(facts.take(n).last() == facts[n - 1]);
    } else {
        assert(facts.take(0).len() == 0);
    }
}

/// A goal keeps its identifier; a goal without one takes the next new one, in the order of
/// the goals, where goals get identifiers. Blank rows take none.
pub proof fn goals_are_numbered_in_order(
    facts: Seq<GoalFacts>,
    prefix: bool,
    fresh: Seq<String>,
    k: int,
)
    requires
        0 <= k < facts.len(),
    ensures
        ({
            let before = facts.take(k).filter(|f: GoalFacts| wants_id(f)).len() as int;
            let id = id_of(facts, prefix, fresh, k);
            let blank = trim(facts[k].raw@).len() == 0;
            &&& blank ==> id is None
            &&& !blank && facts[k].id is Some ==> id == Some(facts[k].id.unwrap()@)
            &&& wants_id(facts[k]) && prefix && before < fresh.len() ==> id == Some(
                fresh[before]@,
            )
            &&& wants_id(facts[k]) && !prefix ==> id is None
        }),
{
    lemma_ids_taken(facts, k);
}

/// A goal's row shows its identifier in brackets, its text and its badge; the box stays as
/// it was.
pub proof fn a_goal_row_shows_identifier_and_badge(
    items: Seq<ItemView>,
    facts: Seq<GoalFacts>,
    prefix: bool,
    fresh: Seq<String>,
    k: int,
)
    requires
        0 <= k < items.len(),
    ensures
        ({
            let row = goal_rows(items, facts, prefix, fresh)[k];
            let id = id_of(facts, prefix, fresh, k);
            let raw = facts[k].raw@;
            &&& goal_rows(items, facts, prefix, fresh).len() == items.len()
            &&& row.is_checkbox == items[k].is_checkbox
            &&& row.checked == items[k].checked
            &&& row.surface_id == items[k].surface_id
            &&& id is Some && facts[k].badge is None ==> row.text == "["@ + id.unwrap() + "] "@
                + raw
            &&& id is Some && facts[k].badge is Some ==> row.text == "["@ + id.unwrap() + "] "@
                + raw + facts[k].badge.unwrap()@
            &&& id is None && facts[k].badge is None ==> row.text == raw
            &&& id is None && facts[k].badge is Some ==> row.text == raw
                + facts[k].badge.unwrap()@
        }),
{
}

/// Linear rows come before Beads rows, and either replaces the user's goals.
pub proof fn a_tracker_replaces_the_goals(
    w: WorkspaceState,
    existing: Seq<ItemView>,
    g: GoalsInput,
)
    ensures
        w.linear is Some ==> task_plan(w, existing, g).rows == Some(
            linear_rows(w.linear.unwrap()@),
        ),
        w.linear is None && w.beads is Some ==> task_plan(w, existing, g).rows == Some(
            beads_rows(w.beads.unwrap().repos@, highlighted_repo(w)),
        ),
        w.linear is Some || w.beads is Some ==> task_plan(w, existing, g).ids_taken == 0,
{
}

/// Without a tracker, rows that one left behind go, and with no goals on file, no badges
/// and no identifiers to give the user's own rows stay as they are.
pub proof fn goals_are_left_alone(w: WorkspaceState, existing: Seq<ItemView>, g: GoalsInput)
    requires
        w.linear is None,
        w.beads is None,
        !g.has_goals,
        !g.has_prefix,
        forall|i: int|
            0 <= i < existing.len() ==> !crate::search::has_text(
                (#[trigger] existing[i]).text,
                "   → "@,
            ),
    ensures
        ({
            let own = existing.filter(|i: ItemView| !is_projected(i.text));
            let plan = task_plan(w, existing, g);
            &&& own.len() == existing.len() ==> plan.rows is None && plan.unchanged
            &&& own.len() != existing.len() ==> plan.rows == Some(own) && !plan.unchanged
        }),
{
    stripping_leaves_the_users_rows(existing);
    let own = stripped(existing);
    assert forall|i: int| 0 <= i < own.len() implies !crate::search::has_text(
        (#[trigger] own[i]).text,
        "   → "@,
    ) by {
        broadcast use vstd::seq_lib::group_filter_ensures;

        assert(existing.filter(|i: ItemView| !is_projected(i.text)).contains(own[i]));
        existing.lemma_filter_contains_rev(|i: ItemView| !is_projected(i.text), own[i]);
        let j = choose|j: int| 0 <= j < existing.len() && existing[j] == own[i];
        assert(!crate::search::has_text(existing[j].text, "   → "@));
    }
}

// ---------------------------------------------------------------------------
// Refreshing Beads
// ---------------------------------------------------------------------------

/// Every workspace that shows Beads rows is asked for again, with its own repositories and
/// the number of the refresh, and no other.
pub proof fn workspaces_with_beads_are_refreshed(
    s: Seq<WorkspaceState>,
    generation: u64,
    n: int,
    i: int,
)
    requires
        0 <= i < n <= s.len(),
    ensures
        ({
            let at = targets_of(s, generation, i).len() as int;
            let all = targets_of(s, generation, n);
            &&& s[i].beads is Some ==> at < all.len() && all[at].workspace_id
                == s[i].workspace.uuid@ && all[at].generation == generation && all[at].repo_roots
                == repo_paths(s[i].beads.unwrap().repos@)
            &&& targets_of(s, generation, i + 1).len() == at + (if s[i].beads is Some {
                1int
            } else {
                0int
            })
            &&& all.len() >= targets_of(s, generation, i + 1).len()
        }),
    decreases n,
{
    if i < n - 1 {
        workspaces_with_beads_are_refreshed(s, generation, n - 1, i);
    }
}

/// A projection is saved when it changes the document, and the goals when a prefix was
/// picked or identifiers were taken; while the user is busy, or there is no document,
/// nothing is.
pub proof fn a_changed_projection_is_saved(w: WorkspaceState, rows: Seq<RowText>, g: GoalsInput)
    ensures
        ({
            let f = follow_up(w, rows, g);
            let busy = w.edit_state is Some && w.edit_state.unwrap().mode is Insert || w.peek_state
                is Some || w.trajectory is None;
            &&& busy ==> !f.save_document && !f.save_goals && f.ids_taken == 0
            &&& !busy ==> (f.save_document <==> projection_changes(w, rows, g))
            &&& w.linear is Some || w.beads is Some ==> !f.save_goals
            &&& !busy && w.linear is None && w.beads is None && g.prefix_picked ==> f.save_goals
        }),
{
}

/// A projection that does not change the rows leaves the document as it is; the rows that
/// are shown are compared by text and surface.
pub proof fn the_same_rows_change_nothing(w: WorkspaceState, rows: Seq<RowText>, g: GoalsInput)
    requires
        w.trajectory is Some,
        w.linear is Some,
        rows_named(w.trajectory.unwrap()@, "Current surfaces"@) == surface_items(rows),
        rows_named(w.trajectory.unwrap()@, "Beads"@) == linear_rows(w.linear.unwrap()@),
    ensures
        !projection_changes(w, rows, g),
        projected(w, rows, g) == w.trajectory.unwrap()@,
{
}

/// A row whose text or surface differs is written anew.
pub proof fn a_different_row_is_written(
    w: WorkspaceState,
    rows: Seq<RowText>,
    g: GoalsInput,
    k: int,
)
    requires
        w.trajectory is Some,
        0 <= k < rows.len(),
        ({
            let old = rows_named(w.trajectory.unwrap()@, "Current surfaces"@);
            old.len() != rows.len() || old[k].text != rows[k].text@ || old[k].surface_id != Some(
                rows[k].surface_ref@,
            )
        }),
    ensures
        projection_changes(w, rows, g),
{
    let old = rows_named(w.trajectory.unwrap()@, "Current surfaces"@);
    let new = surface_items(rows);
    if old.len() == new.len() {
        assert(old[k].text != new[k].text || old[k].surface_id != new[k].surface_id);
    }
}

/// A prefix is picked where a goal of the user's waits for an identifier and there is none
/// yet.
pub proof fn a_goal_wants_a_prefix(w: WorkspaceState, k: int)
    requires
        w.trajectory is Some,
        w.peek_state is None,
        w.edit_state is Some ==> w.edit_state.unwrap().mode == EditMode::Nav,
        w.linear is None,
        w.beads is None,
    ensures
        !wants_prefix(w, true),
        ({
            let own = rows_named(w.trajectory.unwrap()@, "Beads"@).filter(
                |i: ItemView| !is_projected(i.text),
            );
            &&& 0 <= k < own.len() && trim(own[k].text).len() > 0 ==> wants_prefix(w, false)
            &&& (forall|j: int| 0 <= j < own.len() ==> trim((#[trigger] own[j]).text).len() == 0)
                ==> !wants_prefix(w, false)
        }),
{
    let existing = rows_named(w.trajectory.unwrap()@, "Beads"@);
    stripping_leaves_the_users_rows(existing);
    let own = stripped(existing);
    if 0 <= k < own.len() && trim(own[k].text).len() > 0 {
        assert(crate::projection::is_goal(own[k]));
    }
}

/// A path that ends in `..` names no folder.
pub proof fn a_parent_folder_has_no_name(a: Seq<char>)
    ensures
        repo_name(a + seq!['/'] + ".."@) == "repo"@,
{
    reveal_strlit("..");
    reveal_strlit(".");
    let name = ".."@;
    let t = a + seq!['/'] + name;
    assert(name =~= seq!['.', '.']);
    assert(t.last() == '.');
    assert(!name.contains('/'));
    lemma_no_slash(t, 0);
    assert(t + Seq::new(0, |i: int| '/') =~= t);
    lemma_last_slash(a, name, t.len() as int);
    assert(t.skip(a.len() + 1int) =~= name);
    assert("."@.len() == 1);
    assert(file_name(t) is None);
}

/// Goals are written anew as soon as one of them carries a badge, and as soon as there are
/// goals on file.
pub proof fn goals_are_written_anew(
    w: WorkspaceState,
    existing: Seq<ItemView>,
    g: GoalsInput,
    k: int,
)
    requires
        w.linear is None,
        w.beads is None,
        0 <= k < existing.len(),
        !is_projected(existing[k].text),
        g.has_goals || crate::search::has_text(existing[k].text, "   → "@),
    ensures
        task_plan(w, existing, g).rows is Some,
        task_plan(w, existing, g).rows.unwrap() == goal_rows(
            stripped(existing),
            own_facts(existing, g.rows@, existing.len() as int),
            g.has_prefix,
            g.fresh_ids@,
        ),
{
    stripping_leaves_the_users_rows(existing);
    let own = stripped(existing);
    let p = |i: ItemView| !is_projected(i.text);
    broadcast use vstd::seq_lib::group_filter_ensures;

    assert(p(existing[k]) && existing.contains(existing[k]));
    assert(existing.filter(p).contains(existing[k]));
    let m = choose|m: int| 0 <= m < own.len() && own[m] == existing[k];
    assert(own[m].text == existing[k].text);
}

/// The roots whose rows were loaded are taken in their order, each once: at its first place.
pub proof fn loaded_repositories_are_taken_once(
    roots: Seq<Seq<char>>,
    loaded: Assoc<RepoBeadsView>,
    n: int,
)
    requires
        0 <= n <= roots.len(),
    ensures
        ({
            let at = loaded_roots(roots, loaded, n);
            &&& forall|k: int, m: int|
                0 <= k < m < at.len() ==> (#[trigger] at[k]) < (#[trigger] at[m])
            &&& forall|i: int| #[trigger]
                at.contains(i) <==> 0 <= i < n && loaded.lookup(roots[i]) is Some && forall|j: int|
                    0 <= j < i ==> (#[trigger] roots[j]) != roots[i]
        }),
    decreases n,
{
    let at = loaded_roots(roots, loaded, n);
    if n > 0 {
        let before = loaded_roots(roots, loaded, n - 1);
        loaded_repositories_are_taken_once(roots, loaded, n - 1);
        lemma_key_from(loaded.entries@, roots[n - 1], 0);
        let head = roots.take(n - 1);
        assert(head.contains(roots[n - 1]) <==> exists|j: int|
            0 <= j < n - 1 && (#[trigger] roots[j]) == roots[n - 1]) by {
            if head.contains(roots[n - 1]) {
                let j = choose|j: int| 0 <= j < head.len() && head[j] == roots[n - 1];
                assert(roots[j] == roots[n - 1]);
            }
            if exists|j: int| 0 <= j < n - 1 && (#[trigger] roots[j]) == roots[n - 1] {
                let j = choose|j: int| 0 <= j < n - 1 && (#[trigger] roots[j]) == roots[n - 1];
                assert(head[j] == roots[n - 1]);
            }
        }
        assert forall|k: int, m: int| 0 <= k < m < at.len() implies (#[trigger] at[k]) < (
        #[trigger] at[m]) by {
            if m < before.len() {
                assert(at[k] == before[k] && at[m] == before[m]);
            } else {
                assert(before.contains(before[k]));
            }
        }
        assert forall|i: int| #[trigger]
            at.contains(i) <==> 0 <= i < n && loaded.lookup(roots[i]) is Some && forall|j: int|
                0 <= j < i ==> (#[trigger] roots[j]) != roots[i] by {
            if at.len() > before.len() {
                assert(at[before.len() as int] == n - 1);
            }
            if at.contains(i) {
                let m = choose|m: int| 0 <= m < at.len() && at[m] == i;
                if m < before.len() {
                    assert(before[m] == i);
                    assert(before.contains(i));
                }
            }
            if before.contains(i) {
                let m = choose|m: int| 0 <= m < before.len() && before[m] == i;
                assert(at[m] == i);
            }
            if i == n - 1 && before.contains(i) {
                assert(false);
            }
        }
    }
}

/// One of the target's repositories was loaded.
pub open spec fn has_rows(t: BeadsRefreshTarget, loaded: Assoc<RepoBeadsView>) -> bool {
    exists|i: int|
        0 <= i < t.repo_roots@.len() && loaded.lookup((#[trigger] t.repo_roots@[i])@) is Some
}

proof fn lemma_first_root(roots: Seq<Seq<char>>, loaded: Assoc<RepoBeadsView>, i: int) -> (m: int)
    requires
        0 <= i < roots.len(),
        loaded.lookup(roots[i]) is Some,
    ensures
        loaded_roots(roots, loaded, roots.len() as int).contains(m),
    decreases i,
{
    loaded_repositories_are_taken_once(roots, loaded, roots.len() as int);
    if exists|j: int| 0 <= j < i && (#[trigger] roots[j]) == roots[i] {
        let j = choose|j: int| 0 <= j < i && (#[trigger] roots[j]) == roots[i];
        lemma_first_root(roots, loaded, j)
    } else {
        i
    }
}

proof fn lemma_has_rows(t: BeadsRefreshTarget, loaded: Assoc<RepoBeadsView>)
    ensures
        has_rows(t, loaded) <==> loaded_roots(
            views(t.repo_roots@),
            loaded,
            t.repo_roots@.len() as int,
        ).len() > 0,
{
    let roots = views(t.repo_roots@);
    let at = loaded_roots(roots, loaded, roots.len() as int);
    loaded_repositories_are_taken_once(roots, loaded, roots.len() as int);
    if has_rows(t, loaded) {
        let i = choose|i: int|
            0 <= i < t.repo_roots@.len() && loaded.lookup((#[trigger] t.repo_roots@[i])@) is Some;
        assert(roots[i] == t.repo_roots@[i]@);
        let m = lemma_first_root(roots, loaded, i);
    }
    if at.len() > 0 {
        assert(at.contains(at[0]));
        assert(roots[at[0]] == t.repo_roots@[at[0]]@);
    }
}

/// A workspace's rows come from the last target that names it and has any.
pub proof fn the_last_target_with_rows_counts(
    targets: Seq<BeadsRefreshTarget>,
    loaded: Assoc<RepoBeadsView>,
    id: Seq<char>,
    n: int,
    k: int,
)
    requires
        0 <= n <= targets.len(),
    ensures
        0 <= k < n && targets[k].workspace_id@ == id && has_rows(targets[k], loaded) && (forall|
            j: int,
        |
            k < j < n && (#[trigger] targets[j]).workspace_id@ == id ==> !has_rows(
                targets[j],
                loaded,
            )) ==> last_target(targets, loaded, id, n) == Some(k),
        (forall|j: int|
            0 <= j < n && (#[trigger] targets[j]).workspace_id@ == id ==> !has_rows(
                targets[j],
                loaded,
            )) ==> last_target(targets, loaded, id, n) is None,
    decreases n,
{
    if n > 0 {
        lemma_has_rows(targets[n - 1], loaded);
        the_last_target_with_rows_counts(targets, loaded, id, n - 1, k);
    }
}

/// A goal in brackets is the user's unless the brackets hold a priority and a blank follows
/// them.
pub proof fn a_goal_in_brackets_is_the_users(text: Seq<char>, j: int)
    requires
        is_tight(text),
        text.len() > 1,
        text[0] == '[',
        crate::search::find(text.skip(2), "] "@) matches Some(k) ==> 0 <= j < k && text[2 + j] != '?'
            && !('0' <= text[2 + j] && text[2 + j] <= '9'),
    ensures
        !is_projected(text),
{
    reveal_strlit("repo: ");
    reveal_strlit("feature: ");
    reveal_strlit("No active beads");
    reveal_strlit("Beads unavailable");
    reveal_strlit("(no active beads)");
    reveal_strlit("(beads unavailable");
    reveal_strlit("No active Linear issues");
    reveal_strlit("(Linear unavailable");
    reveal_strlit("(stale — Linear refresh unavailable)");
    assert(!crate::text::is_space(text[0]));
    let t = crate::text::trim_start(text);
    assert(t == text);
    assert forall|p: Seq<char>| p.len() > 0 && #[trigger] crate::search::starts_with(
        t,
        p,
    ) implies t[0] == p[0] by {
        assert(t.subrange(0, p.len() as int)[0] == p[0]);
    }
    if let Some(k) = crate::search::find(text.skip(2), "] "@) {
        crate::search::lemma_find_from(text.skip(2), "] "@, 0);
        assert(text.skip(2)[j] == text[2 + j]);
    }
}

} // verus!
