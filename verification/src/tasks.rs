//! Tasks from the issue trackers: which tracker a workspace uses, and the rows
//! that its issues project into the section of goals.
use crate::assoc::Assoc;
use crate::numeral::{decimal, decimal_denotes, decimal_string, is_digit, is_digit_char};
use crate::search::{find, find_in, lemma_find_from, matches_at, starts, starts_with};
use crate::text::{
    chars_of, clone_opt, clone_strings, concat2, concat3, is_space, opt_view, same, slice_chars,
    string_from, trim_start, trim_start_chars, views,
};
use crate::trajectory::{item_views, Item, ItemView};
use vstd::prelude::*;

verus! {

// ---------------------------------------------------------------------------
// Types
// ---------------------------------------------------------------------------

/// An issue of the Linear tracker, with the title as it is shown.
#[derive(Debug, PartialEq, Eq)]
pub struct LinearIssue {
    pub identifier: String,
    pub title: String,
    pub priority: usize,
    pub state_name: String,
    /// The validated target that opens the issue in the desktop application.
    pub desktop_url: Option<String>,
}

impl Clone for LinearIssue {
    fn clone(&self) -> (r: Self)
        ensures
            r == *self,
    {
        LinearIssue {
            identifier: self.identifier.clone(),
            title: self.title.clone(),
            priority: self.priority,
            state_name: self.state_name.clone(),
            desktop_url: clone_opt(&self.desktop_url),
        }
    }
}

/// A copy of a list of issues.
pub fn clone_issues(v: &Vec<LinearIssue>) -> (r: Vec<LinearIssue>)
    ensures
        r@ == v@,
{
    let mut r: Vec<LinearIssue> = Vec::new();
    let mut i: usize = 0;
    while i < v.len()
        invariant
            i <= v@.len(),
            r@ == v@.take(i as int),
        decreases v@.len() - i,
    {
        r.push(v[i].clone());
        i += 1;
    }
    assert(r@ =~= v@);
    r
}

/// The Linear issues of a workspace.
#[derive(Debug, PartialEq, Eq)]
pub struct WorkspaceLinearView {
    pub project_id: String,
    pub required_labels: Vec<String>,
    pub feature_name: Option<String>,
    pub issues: Vec<LinearIssue>,
    pub warning: Option<String>,
}

/// What a workspace's Linear view says.
#[verifier::ext_equal]
pub struct LinearView {
    pub project_id: Seq<char>,
    pub labels: Seq<Seq<char>>,
    pub feature: Option<Seq<char>>,
    pub issues: Seq<LinearIssue>,
    pub warning: Option<Seq<char>>,
}

impl View for WorkspaceLinearView {
    type V = LinearView;

    open spec fn view(&self) -> LinearView {
        LinearView {
            project_id: self.project_id@,
            labels: views(self.required_labels@),
            feature: opt_view(self.feature_name),
            issues: self.issues@,
            warning: opt_view(self.warning),
        }
    }
}

impl Clone for WorkspaceLinearView {
    fn clone(&self) -> (r: Self)
        ensures
            r@ == self@,
    {
        WorkspaceLinearView {
            project_id: self.project_id.clone(),
            required_labels: clone_strings(&self.required_labels),
            feature_name: clone_opt(&self.feature_name),
            issues: clone_issues(&self.issues),
            warning: clone_opt(&self.warning),
        }
    }
}

/// An issue of a repository's Beads store, with the title as it is shown.
#[derive(Debug, PartialEq, Eq)]
pub struct BeadIssue {
    pub id: String,
    pub title: String,
    pub status: String,
    pub priority: Option<usize>,
    pub closed: bool,
}

/// Whether a repository's store could be read.
#[derive(Debug, Clone, Copy, PartialEq, Eq, Structural)]
pub enum BeadsSource {
    Available,
    Unavailable,
}

/// The Beads issues of one repository.
#[derive(Debug, PartialEq, Eq)]
pub struct RepoBeadsView {
    pub repo_path: String,
    pub source: BeadsSource,
    pub issues: Vec<BeadIssue>,
}

/// The Beads issues of a workspace's repositories.
#[derive(Debug)]
pub struct WorkspaceBeadsView {
    pub repos: Vec<RepoBeadsView>,
    /// The repository that each surface works in.
    pub repo_by_surface_ref: Assoc<String>,
}

/// Where a Linear project's issues are found.
#[derive(Debug, PartialEq, Eq)]
pub struct LinearTarget {
    pub team_id: Option<String>,
    pub project_id: String,
    pub labels: Vec<String>,
    pub feature_name: Option<String>,
}

/// The tracker that owns a workspace's tasks.
#[derive(Debug, PartialEq, Eq)]
pub enum TaskSource {
    Unregistered,
    Beads,
    Linear(LinearTarget),
    LinearUnavailable,
}

// ---------------------------------------------------------------------------
// Issue lines
// ---------------------------------------------------------------------------

/// The label of a priority; a missing one is a question mark.
pub open spec fn priority_label(p: Option<usize>) -> Seq<char> {
    match p {
        Some(n) => "P"@ + decimal(n as nat),
        None => "P?"@,
    }
}

fn priority_text(p: Option<usize>) -> (r: String)
    ensures
        r@ == priority_label(p),
{
    match p {
        Some(n) => concat2("P", decimal_string(n).as_str()),
        None => String::from_str("P?"),
    }
}

/// The text with underscores as hyphens.
pub open spec fn hyphenated(s: Seq<char>) -> Seq<char> {
    s.map_values(|c: char| if c == '_' { '-' } else { c })
}

fn hyphenate(s: &str) -> (r: String)
    ensures
        r@ == hyphenated(s@),
{
    let v = chars_of(s);
    let mut r = String::new();
    let mut i: usize = 0;
    while i < v.len()
        invariant
            i <= v@.len(),
            r@ == hyphenated(v@.take(i as int)),
        decreases v@.len() - i,
    {
        let c = if v[i] == '_' {
            '-'
        } else {
            v[i]
        };
        r.push(c);
        assert(hyphenated(v@.take(i + 1)) =~= hyphenated(v@.take(i as int)).push(c));
        i += 1;
    }
    assert(v@.take(v@.len() as int) =~= v@);
    r
}

/// `[P2] id status · title`
pub open spec fn issue_line(
    priority: Option<usize>,
    id: Seq<char>,
    status: Seq<char>,
    title: Seq<char>,
) -> Seq<char> {
    "["@ + priority_label(priority) + "] "@ + id + " "@ + hyphenated(status) + " · "@ + title
}

fn issue_text(priority: Option<usize>, id: &str, status: &str, title: &str) -> (r: String)
    ensures
        r@ == issue_line(priority, id@, status@, title@),
{
    let mut s = concat3("[", priority_text(priority).as_str(), "] ");
    s.append(id);
    s.append(" ");
    s.append(hyphenate(status).as_str());
    s.append(" · ");
    s.append(title);
    s
}

/// The row of a Linear issue.
pub open spec fn linear_line(i: LinearIssue) -> Seq<char> {
    issue_line(Some(i.priority), i.identifier@, i.state_name@, i.title@)
}

/// The row of a Linear issue.
pub fn linear_issue_line(issue: &LinearIssue) -> (r: String)
    ensures
        r@ == linear_line(*issue),
{
    issue_text(
        Some(issue.priority),
        issue.identifier.as_str(),
        issue.state_name.as_str(),
        issue.title.as_str(),
    )
}

/// The row of a Beads issue.
pub open spec fn bead_line(i: BeadIssue) -> Seq<char> {
    issue_line(i.priority, i.id@, i.status@, i.title@)
}

/// The row of a Beads issue.
pub fn bead_issue_line(issue: &BeadIssue) -> (r: String)
    ensures
        r@ == bead_line(*issue),
{
    issue_text(issue.priority, issue.id.as_str(), issue.status.as_str(), issue.title.as_str())
}

/// A row of plain text.
pub open spec fn plain_row(text: Seq<char>) -> ItemView {
    ItemView { text, is_checkbox: false, checked: None, surface_id: None }
}

fn plain_item(text: String) -> (r: Item)
    ensures
        r@ == plain_row(text@),
{
    Item { text, is_checkbox: false, checked: None, surface_id: None }
}

fn push_item(items: &mut Vec<Item>, i: Item)
    ensures
        item_views(final(items)@) == item_views(old(items)@).push(i@),
{
    let ghost before = items@;
    items.push(i);
    assert(item_views(before.push(i)) =~= item_views(before).push(i@));
}

// ---------------------------------------------------------------------------
// Linear rows
// ---------------------------------------------------------------------------

/// The rows of a Linear view: the feature, the issues or why there are none,
/// and a note when the issues are not current.
pub open spec fn linear_rows(v: LinearView) -> Seq<ItemView> {
    let head = match v.feature {
        Some(f) => seq![plain_row("feature: "@ + f)],
        None => Seq::empty(),
    };
    if v.issues.len() == 0 {
        head.push(
            plain_row(
                match v.warning {
                    Some(w) => "  ("@ + w + ")"@,
                    None => "No active Linear issues"@,
                },
            ),
        )
    } else {
        let rows = head + Seq::new(v.issues.len(), |i: int| plain_row(linear_line(v.issues[i])));
        if v.warning is Some {
            rows.push(plain_row("  (stale — Linear refresh unavailable)"@))
        } else {
            rows
        }
    }
}

/// The rows of a Linear view.
pub fn linear_items_for_view(view: &WorkspaceLinearView) -> (r: Vec<Item>)
    ensures
        item_views(r@) == linear_rows(view@),
{
    let mut items: Vec<Item> = Vec::new();
    assert(item_views(items@) =~= Seq::<ItemView>::empty());
    if let Some(f) = &view.feature_name {
        push_item(&mut items, plain_item(concat2("feature: ", f.as_str())));
        assert(item_views(items@) =~= seq![plain_row("feature: "@ + f@)]);
    }
    let ghost head = item_views(items@);
    if view.issues.len() == 0 {
        let text = match &view.warning {
            Some(w) => concat3("  (", w.as_str(), ")"),
            None => String::from_str("No active Linear issues"),
        };
        push_item(&mut items, plain_item(text));
        return items;
    }
    let ghost rows = Seq::new(
        view.issues@.len(),
        |i: int| plain_row(linear_line(view.issues@[i])),
    );
    let mut i: usize = 0;
    assert(head + rows.take(0) =~= head);
    while i < view.issues.len()
        invariant
            i <= view.issues@.len(),
            rows == Seq::new(
                view.issues@.len(),
                |k: int| plain_row(linear_line(view.issues@[k])),
            ),
            item_views(items@) == head + rows.take(i as int),
        decreases view.issues@.len() - i,
    {
        push_item(&mut items, plain_item(linear_issue_line(&view.issues[i])));
        assert((head + rows.take(i as int)).push(rows[i as int]) =~= head + rows.take(i + 1));
        i += 1;
    }
    assert(rows.take(rows.len() as int) =~= rows);
    if view.warning.is_some() {
        push_item(
            &mut items,
            plain_item(String::from_str("  (stale — Linear refresh unavailable)")),
        );
    }
    items
}

/// The target of the first issue at or after `i` whose row is `row`.
pub open spec fn url_for_row(issues: Seq<LinearIssue>, row: Seq<char>, i: int) -> Option<Seq<char>>
    decreases issues.len() - i,
{
    if i < 0 || i >= issues.len() {
        None
    } else if linear_line(issues[i]) == row {
        opt_view(issues[i].desktop_url)
    } else {
        url_for_row(issues, row, i + 1)
    }
}

/// The target that a row opens: that of its issue; none for any other row.
pub fn linear_desktop_url_for_row(view: &WorkspaceLinearView, row: &str) -> (r: Option<String>)
    ensures
        opt_view(r) == url_for_row(view.issues@, row@, 0),
{
    let mut i: usize = 0;
    while i < view.issues.len()
        invariant
            i <= view.issues@.len(),
            url_for_row(view.issues@, row@, 0) == url_for_row(view.issues@, row@, i as int),
        decreases view.issues@.len() - i,
    {
        if same(linear_issue_line(&view.issues[i]).as_str(), row) {
            return clone_opt(&view.issues[i].desktop_url);
        }
        i += 1;
    }
    None
}

/// Whether two lists hold the same texts.
pub fn same_texts(a: &Vec<String>, b: &Vec<String>) -> (r: bool)
    ensures
        r == (views(a@) == views(b@)),
{
    assert(views(a@).len() == a@.len());
    assert(views(b@).len() == b@.len());
    if a.len() != b.len() {
        return false;
    }
    let mut i: usize = 0;
    while i < a.len()
        invariant
            i <= a@.len() == b@.len(),
            forall|k: int| 0 <= k < i ==> (#[trigger] a@[k])@ == b@[k]@,
        decreases a@.len() - i,
    {
        if a[i] != b[i] {
            assert(views(a@)[i as int] != views(b@)[i as int]);
            return false;
        }
        i += 1;
    }
    assert(views(a@) =~= views(b@));
    true
}

/// Whether two optional texts are the same.
pub fn same_opt(a: &Option<String>, b: &Option<String>) -> (r: bool)
    ensures
        r == (opt_view(*a) == opt_view(*b)),
{
    match a {
        Some(x) => match b {
            Some(y) => *x == *y,
            None => false,
        },
        None => b.is_none(),
    }
}

/// A failed refresh of the same target as before, whose issues are known.
pub open spec fn keeps_last_good(v: LinearView, previous: LinearView) -> bool {
    &&& v.warning is Some
    &&& v.issues.len() == 0
    &&& v.project_id == previous.project_id
    &&& v.labels == previous.labels
    &&& v.feature == previous.feature
    &&& previous.issues.len() > 0
}

/// The view after a refresh: a failed one keeps the last good issues.
pub open spec fn with_last_good(v: LinearView, previous: Option<LinearView>) -> LinearView {
    match previous {
        Some(p) => if keeps_last_good(v, p) {
            LinearView { issues: p.issues, ..v }
        } else {
            v
        },
        None => v,
    }
}

/// Keeps the last good issues of the same target through a failed refresh.
pub fn retain_last_good_linear(
    refreshed: &mut WorkspaceLinearView,
    previous: Option<&WorkspaceLinearView>,
)
    ensures
        final(refreshed)@ == with_last_good(
            old(refreshed)@,
            match previous {
                Some(p) => Some(p@),
                None => None,
            },
        ),
{
    if let Some(p) = previous {
        if refreshed.warning.is_some() && refreshed.issues.len() == 0 && same(
            refreshed.project_id.as_str(),
            p.project_id.as_str(),
        ) && same_texts(&refreshed.required_labels, &p.required_labels) && same_opt(
            &refreshed.feature_name,
            &p.feature_name,
        ) && p.issues.len() > 0 {
            refreshed.issues = clone_issues(&p.issues);
        }
    }
}

// ---------------------------------------------------------------------------
// Beads rows
// ---------------------------------------------------------------------------

/// `s` without its trailing slashes.
pub open spec fn no_trailing_slash(s: Seq<char>) -> Seq<char>
    decreases s.len(),
{
    if s.len() > 0 && s.last() == '/' {
        no_trailing_slash(s.drop_last())
    } else {
        s
    }
}

/// The position of the last slash among the first `n` characters, or -1.
pub open spec fn last_slash(s: Seq<char>, n: int) -> int
    decreases n,
{
    if n <= 0 {
        -1
    } else if s[n - 1] == '/' {
        n - 1
    } else {
        last_slash(s, n - 1)
    }
}

/// The final component of a slash-separated path. Components `.` are skipped;
/// the root, `..` and the empty path have none.
pub open spec fn file_name(path: Seq<char>) -> Option<Seq<char>>
    decreases path.len(),
{
    let t = no_trailing_slash(path);
    let k = last_slash(t, t.len() as int);
    let last = t.skip(k + 1);
    if t.len() == 0 || t.len() > path.len() || k >= t.len() {
        None
    } else if last == "."@ {
        if k < 0 {
            None
        } else {
            file_name(t.take(k))
        }
    } else if last == ".."@ {
        None
    } else {
        Some(last)
    }
}

/// The name of a repository: the final component of its path.
pub open spec fn repo_name(path: Seq<char>) -> Seq<char> {
    match file_name(path) {
        Some(n) => n,
        None => "repo"@,
    }
}

fn final_component(path: &Vec<char>) -> (r: Option<Vec<char>>)
    ensures
        match r {
            Some(v) => file_name(path@) == Some(v@),
            None => file_name(path@) is None,
        },
    decreases path@.len(),
{
    let mut n: usize = path.len();
    assert(path@.take(n as int) =~= path@);
    while n > 0 && path[n - 1] == '/'
        invariant
            n <= path@.len(),
            no_trailing_slash(path@) == no_trailing_slash(path@.take(n as int)),
        decreases n,
    {
        assert(path@.take(n as int).drop_last() =~= path@.take(n - 1));
        n -= 1;
    }
    let ghost t = path@.take(n as int);
    assert(no_trailing_slash(path@) == t);
    if n == 0 {
        return None;
    }
    let mut k: usize = n;
    while k > 0 && path[k - 1] != '/'
        invariant
            k <= n <= path@.len(),
            t == path@.take(n as int),
            last_slash(t, n as int) == last_slash(t, k as int),
        decreases k,
    {
        assert(t[k - 1] == path@[k - 1]);
        k -= 1;
    }
    assert(k > 0 ==> t[k - 1] == path@[k - 1]);
    assert(last_slash(t, n as int) == k - 1);
    let last = slice_chars(path, k, n);
    assert(last@ =~= t.skip(k as int));
    let name = string_from(&last);
    if same(name.as_str(), ".") {
        if k == 0 {
            return None;
        }
        let parent = slice_chars(path, 0, k - 1);
        assert(parent@ =~= t.take(k - 1));
        return final_component(&parent);
    }
    if same(name.as_str(), "..") {
        return None;
    }
    Some(last)
}

/// The name of a repository.
pub fn repo_display_name(repo_path: &str) -> (r: String)
    ensures
        r@ == repo_name(repo_path@),
{
    match final_component(&chars_of(repo_path)) {
        Some(v) => string_from(&v),
        None => String::from_str("repo"),
    }
}

/// The row of a Beads issue: a checkbox, ticked when the issue is closed.
pub open spec fn bead_row(i: BeadIssue) -> ItemView {
    ItemView {
        text: bead_line(i),
        is_checkbox: true,
        checked: Some(i.closed),
        surface_id: None,
    }
}

/// The rows of a repository: its name, then its issues or why there are none.
pub open spec fn repo_rows(repo: RepoBeadsView) -> Seq<ItemView> {
    let head = seq![plain_row("repo: "@ + repo_name(repo.repo_path@))];
    if repo.issues@.len() == 0 {
        head.push(
            plain_row(
                if repo.source == BeadsSource::Unavailable {
                    "  (beads unavailable — bd db empty and no issues.jsonl)"@
                } else {
                    "  (no active beads)"@
                },
            ),
        )
    } else {
        head + Seq::new(repo.issues@.len(), |i: int| bead_row(repo.issues@[i]))
    }
}

/// The rows of the first `n` repositories, repository `skip` left out.
pub open spec fn repos_rows(repos: Seq<RepoBeadsView>, skip: int, n: int) -> Seq<ItemView>
    decreases n,
{
    if n <= 0 {
        Seq::empty()
    } else if n - 1 == skip {
        repos_rows(repos, skip, n - 1)
    } else {
        repos_rows(repos, skip, n - 1) + repo_rows(repos[n - 1])
    }
}

/// The first repository at or after `i` with the given path.
pub open spec fn repo_at(repos: Seq<RepoBeadsView>, path: Seq<char>, i: int) -> Option<int>
    decreases repos.len() - i,
{
    if i < 0 || i >= repos.len() {
        None
    } else if repos[i].repo_path@ == path {
        Some(i)
    } else {
        repo_at(repos, path, i + 1)
    }
}

/// The rows of a workspace's repositories; the highlighted one comes first.
pub open spec fn beads_rows(
    repos: Seq<RepoBeadsView>,
    highlighted: Option<Seq<char>>,
) -> Seq<ItemView> {
    let n = repos.len() as int;
    let first = match highlighted {
        Some(h) => repo_at(repos, h, 0),
        None => None,
    };
    if n == 0 {
        seq![plain_row("No active beads"@)]
    } else {
        match first {
            Some(p) => repo_rows(repos[p]) + repos_rows(repos, p, n),
            None => repos_rows(repos, -1, n),
        }
    }
}

fn push_repo(items: &mut Vec<Item>, repo: &RepoBeadsView)
    ensures
        item_views(final(items)@) == item_views(old(items)@) + repo_rows(*repo),
{
    let ghost start = item_views(items@);
    let name = repo_display_name(repo.repo_path.as_str());
    push_item(items, plain_item(concat2("repo: ", name.as_str())));
    let ghost head = seq![plain_row("repo: "@ + repo_name(repo.repo_path@))];
    assert(item_views(items@) =~= start + head);
    if repo.issues.len() == 0 {
        let text = if repo.source == BeadsSource::Unavailable {
            "  (beads unavailable — bd db empty and no issues.jsonl)"
        } else {
            "  (no active beads)"
        };
        push_item(items, plain_item(String::from_str(text)));
        assert(item_views(items@) =~= start + repo_rows(*repo));
        return;
    }
    let ghost rows = Seq::new(repo.issues@.len(), |i: int| bead_row(repo.issues@[i]));
    let mut i: usize = 0;
    assert(start + head + rows.take(0) =~= start + head);
    while i < repo.issues.len()
        invariant
            i <= repo.issues@.len(),
            rows == Seq::new(repo.issues@.len(), |k: int| bead_row(repo.issues@[k])),
            item_views(items@) == start + head + rows.take(i as int),
        decreases repo.issues@.len() - i,
    {
        let item = Item {
            text: bead_issue_line(&repo.issues[i]),
            is_checkbox: true,
            checked: Some(repo.issues[i].closed),
            surface_id: None,
        };
        push_item(items, item);
        assert((start + head + rows.take(i as int)).push(rows[i as int]) =~= start + head
            + rows.take(i + 1));
        i += 1;
    }
    assert(rows.take(rows.len() as int) =~= rows);
    assert(start + head + rows =~= start + repo_rows(*repo));
}

fn find_repo(repos: &Vec<RepoBeadsView>, path: &str) -> (r: Option<usize>)
    ensures
        match r {
            Some(i) => repo_at(repos@, path@, 0) == Some(i as int) && i < repos@.len(),
            None => repo_at(repos@, path@, 0) is None,
        },
{
    let mut i: usize = 0;
    while i < repos.len()
        invariant
            i <= repos@.len(),
            repo_at(repos@, path@, 0) == repo_at(repos@, path@, i as int),
        decreases repos@.len() - i,
    {
        if same(repos[i].repo_path.as_str(), path) {
            return Some(i);
        }
        i += 1;
    }
    None
}

/// The rows of a Beads view.
pub fn beads_items_for_view(
    view: &WorkspaceBeadsView,
    highlighted_repo: Option<&str>,
) -> (r: Vec<Item>)
    ensures
        item_views(r@) == beads_rows(
            view.repos@,
            match highlighted_repo {
                Some(h) => Some(h@),
                None => None,
            },
        ),
{
    let mut items: Vec<Item> = Vec::new();
    assert(item_views(items@) =~= Seq::<ItemView>::empty());
    if view.repos.len() == 0 {
        push_item(&mut items, plain_item(String::from_str("No active beads")));
        assert(item_views(items@) =~= seq![plain_row("No active beads"@)]);
        return items;
    }
    let first: Option<usize> = match highlighted_repo {
        Some(h) => find_repo(&view.repos, h),
        None => None,
    };
    let ghost skip: int = match first {
        Some(p) => p as int,
        None => -1,
    };
    if let Some(p) = first {
        push_repo(&mut items, &view.repos[p]);
        assert(item_views(items@) =~= repo_rows(view.repos@[p as int]));
    }
    let ghost start = item_views(items@);
    let mut i: usize = 0;
    assert(start + repos_rows(view.repos@, skip, 0) =~= start);
    while i < view.repos.len()
        invariant
            i <= view.repos@.len(),
            skip == (match first {
                Some(p) => p as int,
                None => -1,
            }),
            item_views(items@) == start + repos_rows(view.repos@, skip, i as int),
        decreases view.repos@.len() - i,
    {
        let is_first = match first {
            Some(p) => p == i,
            None => false,
        };
        if !is_first {
            let ghost before = repos_rows(view.repos@, skip, i as int);
            push_repo(&mut items, &view.repos[i]);
            assert(start + before + repo_rows(view.repos@[i as int]) =~= start + (before + repo_rows(
                view.repos@[i as int],
            )));
        }
        i += 1;
    }
    assert(first is None ==> start + repos_rows(view.repos@, -1, view.repos@.len() as int)
        =~= repos_rows(view.repos@, -1, view.repos@.len() as int));
    items
}

// ---------------------------------------------------------------------------
// Telling projected rows from goals
// ---------------------------------------------------------------------------

/// The first `n` characters are digits or question marks.
pub open spec fn is_label(s: Seq<char>, n: int) -> bool {
    forall|j: int| 0 <= j < n ==> is_digit(#[trigger] s[j]) || s[j] == '?'
}

/// `[P` and a label of digits or question marks, closed by `] `.
pub open spec fn is_issue_row(t: Seq<char>) -> bool {
    starts_with(t, "[P"@) && match find(t.skip(2), "] "@) {
        Some(k) => k > 0 && is_label(t.skip(2), k),
        None => false,
    }
}

/// The row was projected from a tracker, and is no goal of the user's.
pub open spec fn is_projected(text: Seq<char>) -> bool {
    let t = trim_start(text);
    ||| is_issue_row(t)
    ||| starts_with(t, "repo: "@)
    ||| starts_with(t, "feature: "@)
    ||| starts_with(t, "No active beads"@)
    ||| starts_with(t, "Beads unavailable"@)
    ||| starts_with(t, "(no active beads)"@)
    ||| starts_with(t, "(beads unavailable"@)
    ||| starts_with(t, "No active Linear issues"@)
    ||| starts_with(t, "(Linear unavailable"@)
    ||| starts_with(t, "(stale — Linear refresh unavailable)"@)
}

fn issue_row(t: &Vec<char>) -> (r: bool)
    ensures
        r == is_issue_row(t@),
{
    if !starts(t, "[P") {
        return false;
    }
    proof {
        reveal_strlit("[P");
    }
    let rest = slice_chars(t, 2, t.len());
    assert(rest@ =~= t@.skip(2));
    match find_in(&rest, "] ") {
        Some(k) => {
            if k == 0 {
                return false;
            }
            let mut j: usize = 0;
            while j < k
                invariant
                    j <= k <= rest@.len(),
                    rest@ == t@.skip(2),
                    find(rest@, "] "@) == Some(k as int),
                    is_label(rest@, j as int),
                decreases k - j,
            {
                if !(is_digit_char(rest[j]) || rest[j] == '?') {
                    return false;
                }
                j += 1;
            }
            true
        },
        None => false,
    }
}

/// Whether a row was projected from a tracker.
pub fn is_projected_task_row(text: &str) -> (r: bool)
    ensures
        r == is_projected(text@),
{
    let t = trim_start_chars(&chars_of(text));
    issue_row(&t) || starts(&t, "repo: ") || starts(&t, "feature: ") || starts(&t, "No active beads")
        || starts(&t, "Beads unavailable") || starts(&t, "(no active beads)") || starts(
        &t,
        "(beads unavailable",
    ) || starts(&t, "No active Linear issues") || starts(&t, "(Linear unavailable") || starts(
        &t,
        "(stale — Linear refresh unavailable)",
    )
}

/// The user's own rows among the first `n`.
pub open spec fn own_rows(items: Seq<ItemView>, n: int) -> Seq<ItemView>
    decreases n,
{
    if n <= 0 {
        Seq::empty()
    } else if is_projected(items[n - 1].text) {
        own_rows(items, n - 1)
    } else {
        own_rows(items, n - 1).push(items[n - 1])
    }
}

/// The user's own rows.
pub open spec fn stripped(items: Seq<ItemView>) -> Seq<ItemView> {
    own_rows(items, items.len() as int)
}

/// Removes projected rows; also says whether there were any.
pub fn strip_projected_task_rows(items: &Vec<Item>) -> (r: (Vec<Item>, bool))
    ensures
        item_views(r.0@) == stripped(item_views(items@)),
        r.1 == (stripped(item_views(items@)).len() != items@.len()),
{
    let ghost all = item_views(items@);
    let mut kept: Vec<Item> = Vec::new();
    let mut i: usize = 0;
    assert(item_views(kept@) =~= Seq::<ItemView>::empty());
    while i < items.len()
        invariant
            i <= items@.len(),
            all == item_views(items@),
            item_views(kept@) == own_rows(all, i as int),
        decreases items@.len() - i,
    {
        assert(all[i as int] == items@[i as int]@);
        if !is_projected_task_row(items[i].text.as_str()) {
            push_item(&mut kept, items[i].clone());
        }
        i += 1;
    }
    assert(item_views(kept@).len() == kept@.len());
    let dropped = kept.len() != items.len();
    (kept, dropped)
}

/// Whether two lists of rows show the same.
pub fn items_equal_for_projection(a: &Vec<Item>, b: &Vec<Item>) -> (r: bool)
    ensures
        r == (item_views(a@) == item_views(b@)),
{
    assert(item_views(a@).len() == a@.len());
    assert(item_views(b@).len() == b@.len());
    if a.len() != b.len() {
        return false;
    }
    let mut i: usize = 0;
    while i < a.len()
        invariant
            i <= a@.len() == b@.len(),
            forall|k: int| 0 <= k < i ==> (#[trigger] a@[k])@ == b@[k]@,
        decreases a@.len() - i,
    {
        let x = &a[i];
        let y = &b[i];
        let same_mark = match x.checked {
            Some(p) => match y.checked {
                Some(q) => p == q,
                None => false,
            },
            None => y.checked.is_none(),
        };
        let equal = x.text == y.text && x.is_checkbox == y.is_checkbox && same_mark && same_opt(
            &x.surface_id,
            &y.surface_id,
        );
        if !equal {
            assert(item_views(a@)[i as int] != item_views(b@)[i as int]);
            return false;
        }
        assert(x@ =~= y@);
        i += 1;
    }
    assert(item_views(a@) =~= item_views(b@));
    true
}

// ---------------------------------------------------------------------------
// Laws
// ---------------------------------------------------------------------------

proof fn lemma_bracket_is_issue_row(label: Seq<char>, rest: Seq<char>)
    requires
        label.len() > 0,
        is_label(label, label.len() as int),
    ensures
        is_projected("["@ + ("P"@ + label) + "] "@ + rest),
{
    reveal_strlit("[");
    reveal_strlit("P");
    reveal_strlit("] ");
    reveal_strlit("[P");
    let t = "["@ + ("P"@ + label) + "] "@ + rest;
    assert(!is_space('['));
    assert(t[0] == '[');
    assert(trim_start(t) == t);
    assert(t.subrange(0, 2) =~= "[P"@);
    let u = t.skip(2);
    let n = label.len() as int;
    assert forall|j: int| 0 <= j < n implies #[trigger] u[j] == label[j] by {
        assert(t[j + 2] == label[j]);
    }
    assert(u.subrange(n, n + 2) =~= "] "@);
    assert(matches_at(u, "] "@, n));
    lemma_find_from(u, "] "@, 0);
    let k = find(u, "] "@).unwrap();
    if k < n {
        assert(u.subrange(k, k + 2)[0] == "] "@[0]);
        assert(u[k] == ']');
        assert(u[k] == label[k]);
        assert(is_digit(label[k]) || label[k] == '?');
    }
    assert(k == n);
    assert forall|j: int| 0 <= j < n implies is_digit(#[trigger] u[j]) || u[j] == '?' by {
        assert(u[j] == label[j]);
    }
}

/// Every issue row is recognized as projected, whatever its texts.
pub proof fn issue_lines_are_projected(
    priority: Option<usize>,
    id: Seq<char>,
    status: Seq<char>,
    title: Seq<char>,
)
    ensures
        is_projected(issue_line(priority, id, status, title)),
{
    reveal_strlit("P?");
    reveal_strlit("P");
    let rest = id + " "@ + hyphenated(status) + " · "@ + title;
    let label = match priority {
        Some(n) => decimal(n as nat),
        None => seq!['?'],
    };
    if let Some(n) = priority {
        decimal_denotes(n as nat);
    }
    assert(priority_label(priority) =~= "P"@ + label);
    assert(issue_line(priority, id, status, title) =~= "["@ + ("P"@ + label) + "] "@ + rest);
    lemma_bracket_is_issue_row(label, rest);
}

proof fn lemma_lead_is_projected(lead: Seq<char>, rest: Seq<char>)
    requires
        lead.len() > 0,
        !is_space(lead[0]),
    ensures
        trim_start(lead + rest) == lead + rest,
        starts_with(lead + rest, lead),
{
    assert((lead + rest)[0] == lead[0]);
    assert((lead + rest).subrange(0, lead.len() as int) =~= lead);
}

/// A view whose warning, if it has one, says that Linear is unavailable.
pub open spec fn warning_is_plain(v: LinearView) -> bool {
    match v.warning {
        Some(w) => starts_with(w, "Linear unavailable"@),
        None => true,
    }
}

proof fn lemma_notes_are_projected(w: Seq<char>)
    requires
        starts_with(w, "Linear unavailable"@),
    ensures
        is_projected("  ("@ + w + ")"@),
        is_projected("  (stale — Linear refresh unavailable)"@),
        is_projected("No active Linear issues"@),
{
    reveal_strlit("  (");
    reveal_strlit(")");
    reveal_strlit("Linear unavailable");
    reveal_strlit("(Linear unavailable");
    reveal_strlit("  (stale — Linear refresh unavailable)");
    reveal_strlit("(stale — Linear refresh unavailable)");
    reveal_strlit("No active Linear issues");
    let a = "  ("@ + w + ")"@;
    lemma_two_spaces(a);
    let t = trim_start(a);
    assert(t =~= a.skip(2));
    assert(w.subrange(0, 18) == "Linear unavailable"@);
    assert forall|j: int| 0 <= j < 18 implies #[trigger] w[j] == "Linear unavailable"@[j] by {
        assert(w.subrange(0, 18)[j] == w[j]);
    }
    assert(t.subrange(0, 19) =~= "(Linear unavailable"@);
    let b = "  (stale — Linear refresh unavailable)"@;
    lemma_two_spaces(b);
    assert(trim_start(b) =~= "(stale — Linear refresh unavailable)"@);
    assert(trim_start(b).subrange(0, trim_start(b).len() as int) =~= trim_start(b));
    let c = "No active Linear issues"@;
    assert(trim_start(c) == c);
    assert(c.subrange(0, c.len() as int) =~= c);
}

proof fn lemma_two_spaces(s: Seq<char>)
    requires
        s.len() > 2,
        s[0] == ' ',
        s[1] == ' ',
        !is_space(s[2]),
    ensures
        trim_start(s) == s.skip(2),
{
    assert(trim_start(s) == trim_start(s.drop_first()));
    let t = s.drop_first();
    assert(t[0] == ' ');
    assert(trim_start(t) == trim_start(t.drop_first()));
    assert(t.drop_first() =~= s.skip(2));
    assert(s.skip(2)[0] == s[2]);
}

/// Every row of a Linear view is recognized as projected.
pub proof fn linear_rows_are_projected(v: LinearView, k: int)
    requires
        warning_is_plain(v),
        0 <= k < linear_rows(v).len(),
    ensures
        is_projected(linear_rows(v)[k].text),
{
    reveal_strlit("feature: ");
    let w = match v.warning {
        Some(w) => w,
        None => "Linear unavailable"@,
    };
    assert("Linear unavailable"@.subrange(0, "Linear unavailable"@.len() as int)
        =~= "Linear unavailable"@);
    lemma_notes_are_projected(w);
    if let Some(f) = v.feature {
        lemma_lead_is_projected("feature: "@, f);
    }
    let h = if v.feature is Some {
        1int
    } else {
        0int
    };
    if v.issues.len() > 0 && h <= k < h + v.issues.len() {
        let i = v.issues[k - h];
        issue_lines_are_projected(Some(i.priority), i.identifier@, i.state_name@, i.title@);
    }
}

/// Every row of a repository is recognized as projected.
pub proof fn repo_rows_are_projected(repo: RepoBeadsView, k: int)
    requires
        0 <= k < repo_rows(repo).len(),
    ensures
        is_projected(repo_rows(repo)[k].text),
{
    reveal_strlit("repo: ");
    reveal_strlit("  (beads unavailable — bd db empty and no issues.jsonl)");
    reveal_strlit("(beads unavailable");
    reveal_strlit("  (no active beads)");
    reveal_strlit("(no active beads)");
    lemma_lead_is_projected("repo: "@, repo_name(repo.repo_path@));
    let a = "  (beads unavailable — bd db empty and no issues.jsonl)"@;
    lemma_two_spaces(a);
    assert(trim_start(a).subrange(0, 18) =~= "(beads unavailable"@);
    let b = "  (no active beads)"@;
    lemma_two_spaces(b);
    assert(trim_start(b).subrange(0, 17) =~= "(no active beads)"@);
    if repo.issues@.len() > 0 && k >= 1 {
        let i = repo.issues@[k - 1];
        issue_lines_are_projected(i.priority, i.id@, i.status@, i.title@);
    }
}

proof fn lemma_own_rows_keep(items: Seq<ItemView>, n: int)
    requires
        0 <= n <= items.len(),
    ensures
        forall|k: int|
            0 <= k < own_rows(items, n).len() ==> !is_projected(
                (#[trigger] own_rows(items, n)[k]).text,
            ),
        own_rows(items, n).len() <= n,
    decreases n,
{
    if n > 0 {
        lemma_own_rows_keep(items, n - 1);
    }
}

proof fn lemma_own_rows_all(items: Seq<ItemView>, n: int)
    requires
        0 <= n <= items.len(),
        forall|k: int| 0 <= k < n ==> !is_projected((#[trigger] items[k]).text),
    ensures
        own_rows(items, n) == items.take(n),
    decreases n,
{
    if n > 0 {
        lemma_own_rows_all(items, n - 1);
        assert(items.take(n) =~= items.take(n - 1).push(items[n - 1]));
    } else {
        assert(items.take(0) =~= Seq::<ItemView>::empty());
    }
}

/// Stripping leaves no projected row behind, and a second time changes nothing.
pub proof fn stripping_is_complete(items: Seq<ItemView>)
    ensures
        forall|k: int|
            0 <= k < stripped(items).len() ==> !is_projected((#[trigger] stripped(items)[k]).text),
        stripped(stripped(items)) == stripped(items),
{
    lemma_own_rows_keep(items, items.len() as int);
    let s = stripped(items);
    lemma_own_rows_all(s, s.len() as int);
    assert(s.take(s.len() as int) =~= s);
}

proof fn lemma_own_rows_none(items: Seq<ItemView>, n: int)
    requires
        0 <= n <= items.len(),
        forall|k: int| 0 <= k < n ==> is_projected((#[trigger] items[k]).text),
    ensures
        own_rows(items, n).len() == 0,
    decreases n,
{
    if n > 0 {
        lemma_own_rows_none(items, n - 1);
    }
}

proof fn lemma_own_rows_append(a: Seq<ItemView>, b: Seq<ItemView>, n: int)
    requires
        0 <= n <= b.len(),
    ensures
        own_rows(a + b, a.len() + n) == own_rows(a, a.len() as int) + own_rows(b, n),
    decreases n,
{
    if n == 0 {
        lemma_own_rows_prefix(a + b, a, a.len() as int);
        assert(own_rows(a, a.len() as int) + own_rows(b, 0) =~= own_rows(a, a.len() as int));
    } else {
        lemma_own_rows_append(a, b, n - 1);
        assert((a + b)[a.len() + n - 1] == b[n - 1]);
        if !is_projected(b[n - 1].text) {
            assert((own_rows(a, a.len() as int) + own_rows(b, n - 1)).push(b[n - 1])
                =~= own_rows(a, a.len() as int) + own_rows(b, n - 1).push(b[n - 1]));
        }
    }
}

proof fn lemma_own_rows_prefix(a: Seq<ItemView>, b: Seq<ItemView>, n: int)
    requires
        0 <= n <= a.len(),
        n <= b.len(),
        forall|i: int| 0 <= i < n ==> a[i] == b[i],
    ensures
        own_rows(a, n) == own_rows(b, n),
    decreases n,
{
    if n > 0 {
        lemma_own_rows_prefix(a, b, n - 1);
    }
}

/// Switching a workspace away from Linear removes exactly the Linear rows: the
/// goals that stood beside them come through.
pub proof fn stripping_undoes_the_projection(v: LinearView, goals: Seq<ItemView>)
    requires
        warning_is_plain(v),
    ensures
        stripped(linear_rows(v) + goals) == stripped(goals),
{
    let rows = linear_rows(v);
    assert forall|k: int| 0 <= k < rows.len() implies is_projected((#[trigger] rows[k]).text) by {
        linear_rows_are_projected(v, k);
    }
    lemma_own_rows_none(rows, rows.len() as int);
    lemma_own_rows_append(rows, goals, goals.len() as int);
    assert(own_rows(rows, rows.len() as int) + stripped(goals) =~= stripped(goals));
}

} // verus!
