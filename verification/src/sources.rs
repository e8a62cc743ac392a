//! Which tracker each workspace uses, and the queries that follow from it.
use crate::assoc::{key_from, lemma_key_from, Assoc};
use crate::tasks::{
    clone_issues, same_texts, LinearIssue, LinearTarget, LinearView, TaskSource,
    WorkspaceLinearView,
};
use crate::text::{clone_opt, clone_strings, opt_view, same, views};
use vstd::prelude::*;

verus! {

// ---------------------------------------------------------------------------
// Resolution
// ---------------------------------------------------------------------------

/// What the project registry says of a workspace: by its declared identity, by
/// its directory and by the repositories of its surfaces.
#[derive(Debug)]
pub struct SourceEvidence {
    pub workspace_id: String,
    pub identity: TaskSource,
    pub directory: Option<TaskSource>,
    pub repos: Vec<TaskSource>,
}

/// The first registered source at or after `i`.
pub open spec fn registered_from(s: Seq<TaskSource>, i: int) -> Option<int>
    decreases s.len() - i,
{
    if i < 0 || i >= s.len() {
        None
    } else if s[i] !is Unregistered {
        Some(i)
    } else {
        registered_from(s, i + 1)
    }
}

/// The source by identity, directory and repositories: the declared identity
/// owns the tracker, paths are the fallback, and the first registered one
/// decides.
pub open spec fn source_from(
    identity: TaskSource,
    directory: Option<TaskSource>,
    repos: Seq<TaskSource>,
) -> TaskSource {
    if identity !is Unregistered {
        identity
    } else if directory matches Some(d) && d !is Unregistered {
        directory.unwrap()
    } else {
        match registered_from(repos, 0) {
            Some(i) => repos[i],
            None => TaskSource::Unregistered,
        }
    }
}

/// The source of a workspace.
pub open spec fn source_of(e: SourceEvidence) -> TaskSource {
    source_from(e.identity, e.directory, e.repos@)
}

/// The source of the last of the first `n` workspaces with the given id.
pub open spec fn last_source(
    s: Seq<SourceEvidence>,
    registry: bool,
    id: Seq<char>,
    n: int,
) -> Option<TaskSource>
    decreases n,
{
    if n <= 0 {
        None
    } else if s[n - 1].workspace_id@ == id {
        Some(
            if registry {
                source_of(s[n - 1])
            } else {
                TaskSource::Unregistered
            },
        )
    } else {
        last_source(s, registry, id, n - 1)
    }
}

fn is_registered(s: &TaskSource) -> (r: bool)
    ensures
        r == (*s !is Unregistered),
{
    match s {
        TaskSource::Unregistered => false,
        _ => true,
    }
}

fn decide(
    identity: TaskSource,
    directory: Option<TaskSource>,
    repos: Vec<TaskSource>,
) -> (r: TaskSource)
    ensures
        r == source_from(identity, directory, repos@),
{
    if is_registered(&identity) {
        return identity;
    }
    if let Some(d) = directory {
        if is_registered(&d) {
            return d;
        }
    }
    let mut rest = repos;
    let mut i: usize = 0;
    while i < rest.len() && !is_registered(&rest[i])
        invariant
            i <= rest@.len(),
            rest@ == repos@,
            registered_from(repos@, 0) == registered_from(repos@, i as int),
        decreases rest@.len() - i,
    {
        i += 1;
    }
    if i < rest.len() {
        rest.swap_remove(i)
    } else {
        TaskSource::Unregistered
    }
}

/// The tracker of each workspace. Without a registry every workspace is
/// unregistered.
pub fn resolve_task_sources(evidence: Vec<SourceEvidence>, registry: bool) -> (r: Assoc<TaskSource>)
    ensures
        r.well_formed(),
        forall|id: Seq<char>| #[trigger]
            r.lookup(id) == last_source(evidence@, registry, id, evidence@.len() as int),
{
    let mut rest = evidence;
    let mut r: Assoc<TaskSource> = Assoc::new();
    let ghost mut n: int = 0;
    while rest.len() > 0
        invariant
            0 <= n <= evidence@.len(),
            rest@ == evidence@.skip(n),
            r.well_formed(),
            forall|id: Seq<char>| #[trigger] r.lookup(id) == last_source(evidence@, registry, id, n),
        decreases rest@.len(),
    {
        let ghost before = r;
        let e = rest.remove(0);
        assert(e == evidence@[n]);
        assert(rest@ =~= evidence@.skip(n + 1));
        let SourceEvidence { workspace_id, identity, directory, repos } = e;
        let source = if registry {
            decide(identity, directory, repos)
        } else {
            TaskSource::Unregistered
        };
        assert(registry ==> source == source_of(evidence@[n]));
        r.insert(workspace_id, source);
        proof {
            n = n + 1;
            assert forall|id: Seq<char>| true implies #[trigger] r.lookup(id) == last_source(
                evidence@,
                registry,
                id,
                n,
            ) by {
                assert(before.lookup(id) == last_source(evidence@, registry, id, n - 1));
            }
        }
    }
    assert(n == evidence@.len());
    r
}

// ---------------------------------------------------------------------------
// Queries
// ---------------------------------------------------------------------------

/// One query of the tracker and the workspaces that share its answer.
#[derive(Debug, PartialEq, Eq)]
pub struct QueryGroup {
    pub project_id: String,
    pub labels: Vec<String>,
    pub targets: Vec<(String, Option<String>)>,
}

/// What a query group says.
#[verifier::ext_equal]
pub struct GroupView {
    pub project_id: Seq<char>,
    pub labels: Seq<Seq<char>>,
    pub targets: Seq<(Seq<char>, Option<Seq<char>>)>,
}

/// What a list of targets says.
pub open spec fn target_views(s: Seq<(String, Option<String>)>) -> Seq<
    (Seq<char>, Option<Seq<char>>),
> {
    s.map_values(|t: (String, Option<String>)| (t.0@, opt_view(t.1)))
}

impl View for QueryGroup {
    type V = GroupView;

    open spec fn view(&self) -> GroupView {
        GroupView {
            project_id: self.project_id@,
            labels: views(self.labels@),
            targets: target_views(self.targets@),
        }
    }
}

/// What each of the groups says.
pub open spec fn group_views(s: Seq<QueryGroup>) -> Seq<GroupView> {
    s.map_values(|g: QueryGroup| g@)
}

/// The first group at or after `i` for a project and labels.
pub open spec fn group_from(
    s: Seq<GroupView>,
    project: Seq<char>,
    labels: Seq<Seq<char>>,
    i: int,
) -> Option<int>
    decreases s.len() - i,
{
    if i < 0 || i >= s.len() {
        None
    } else if s[i].project_id == project && s[i].labels == labels {
        Some(i)
    } else {
        group_from(s, project, labels, i + 1)
    }
}

/// The groups with a workspace's target added.
pub open spec fn with_target(
    s: Seq<GroupView>,
    project: Seq<char>,
    labels: Seq<Seq<char>>,
    target: (Seq<char>, Option<Seq<char>>),
) -> Seq<GroupView> {
    match group_from(s, project, labels, 0) {
        Some(i) => s.update(i, GroupView { targets: s[i].targets.push(target), ..s[i] }),
        None => s.push(GroupView { project_id: project, labels, targets: seq![target] }),
    }
}

/// The groups of the first `n` workspaces: those with the same project and
/// labels share one.
pub open spec fn grouped(s: Seq<(String, TaskSource)>, n: int) -> Seq<GroupView>
    decreases n,
{
    if n <= 0 {
        Seq::empty()
    } else {
        match s[n - 1].1 {
            TaskSource::Linear(t) => with_target(
                grouped(s, n - 1),
                t.project_id@,
                views(t.labels@),
                (s[n - 1].0@, opt_view(t.feature_name)),
            ),
            _ => grouped(s, n - 1),
        }
    }
}

/// No two groups ask for the same project and labels.
pub open spec fn groups_distinct(s: Seq<GroupView>) -> bool {
    forall|i: int, j: int|
        0 <= i < j < s.len() ==> (#[trigger] s[i]).project_id != (#[trigger] s[j]).project_id
            || s[i].labels != s[j].labels
}

proof fn lemma_group_from(s: Seq<GroupView>, project: Seq<char>, labels: Seq<Seq<char>>, i: int)
    requires
        0 <= i,
    ensures
        match group_from(s, project, labels, i) {
            Some(k) => i <= k < s.len() && s[k].project_id == project && s[k].labels == labels,
            None => forall|k: int|
                i <= k < s.len() ==> (#[trigger] s[k]).project_id != project || s[k].labels
                    != labels,
        },
    decreases s.len() - i,
{
    if i < s.len() && !(s[i].project_id == project && s[i].labels == labels) {
        lemma_group_from(s, project, labels, i + 1);
    }
}

/// Each project and set of labels is asked for once.
pub proof fn groups_are_distinct(s: Seq<(String, TaskSource)>, n: int)
    requires
        0 <= n <= s.len(),
    ensures
        groups_distinct(grouped(s, n)),
    decreases n,
{
    if n > 0 {
        groups_are_distinct(s, n - 1);
        if let TaskSource::Linear(t) = s[n - 1].1 {
            lemma_group_from(grouped(s, n - 1), t.project_id@, views(t.labels@), 0);
        }
    }
}

fn asks_for(g: &QueryGroup, t: &LinearTarget) -> (r: bool)
    ensures
        r == (g@.project_id == t.project_id@ && g@.labels == views(t.labels@)),
{
    same(g.project_id.as_str(), t.project_id.as_str()) && same_texts(&g.labels, &t.labels)
}

fn add_target(groups: &mut Vec<QueryGroup>, t: &LinearTarget, workspace_id: &String)
    ensures
        group_views(final(groups)@) == with_target(
            group_views(old(groups)@),
            t.project_id@,
            views(t.labels@),
            (workspace_id@, opt_view(t.feature_name)),
        ),
{
    let ghost before = group_views(groups@);
    let ghost target = (workspace_id@, opt_view(t.feature_name));
    let entry = (workspace_id.clone(), clone_opt(&t.feature_name));
    let mut i: usize = 0;
    while i < groups.len() && !asks_for(&groups[i], t)
        invariant
            i <= groups@.len(),
            before == group_views(groups@),
            group_from(before, t.project_id@, views(t.labels@), 0) == group_from(
                before,
                t.project_id@,
                views(t.labels@),
                i as int,
            ),
        decreases groups@.len() - i,
    {
        assert(before[i as int] == groups@[i as int]@);
        i += 1;
    }
    if i < groups.len() {
        let ghost old_targets = groups@[i as int].targets@;
        assert(before[i as int] == groups@[i as int]@);
        let g = &mut groups[i];
        g.targets.push(entry);
        assert(target_views(old_targets.push(entry)) =~= target_views(old_targets).push(target));
        assert(group_views(groups@) =~= with_target(
            before,
            t.project_id@,
            views(t.labels@),
            target,
        ));
    } else {
        let mut targets: Vec<(String, Option<String>)> = Vec::new();
        targets.push(entry);
        assert(target_views(targets@) =~= seq![target]);
        let g = QueryGroup {
            project_id: t.project_id.clone(),
            labels: clone_strings(&t.labels),
            targets,
        };
        groups.push(g);
        assert(group_views(groups@) =~= before.push(g@));
    }
}

/// Groups the workspaces by the query that answers for them.
pub fn linear_query_groups(task_sources: &Assoc<TaskSource>) -> (r: Vec<QueryGroup>)
    ensures
        group_views(r@) == grouped(task_sources.entries@, task_sources.entries@.len() as int),
        groups_distinct(group_views(r@)),
{
    let mut groups: Vec<QueryGroup> = Vec::new();
    let mut i: usize = 0;
    assert(group_views(groups@) =~= Seq::<GroupView>::empty());
    while i < task_sources.entries.len()
        invariant
            i <= task_sources.entries@.len(),
            group_views(groups@) == grouped(task_sources.entries@, i as int),
        decreases task_sources.entries@.len() - i,
    {
        if let TaskSource::Linear(t) = &task_sources.entries[i].1 {
            add_target(&mut groups, t, &task_sources.entries[i].0);
        }
        i += 1;
    }
    proof {
        groups_are_distinct(task_sources.entries@, task_sources.entries@.len() as int);
    }
    groups
}

// ---------------------------------------------------------------------------
// Answers
// ---------------------------------------------------------------------------

/// The answer to one query: issues, or a warning in their place.
#[derive(Debug)]
pub struct LinearAnswer {
    pub issues: Vec<LinearIssue>,
    pub warning: Option<String>,
}

/// The view of a workspace whose registered coordinates are incomplete.
pub open spec fn incomplete_view() -> LinearView {
    LinearView {
        project_id: Seq::empty(),
        labels: Seq::empty(),
        feature: None,
        issues: Seq::empty(),
        warning: Some("Linear unavailable: project registry coordinates are incomplete"@),
    }
}

/// The view of a workspace whose registered coordinates are incomplete.
pub fn incomplete_linear_view() -> (r: WorkspaceLinearView)
    ensures
        r@ == incomplete_view(),
{
    let r = WorkspaceLinearView {
        project_id: String::new(),
        required_labels: Vec::new(),
        feature_name: None,
        issues: Vec::new(),
        warning: Some(
            String::from_str("Linear unavailable: project registry coordinates are incomplete"),
        ),
    };
    assert(r@.labels =~= Seq::<Seq<char>>::empty());
    assert(r@.issues =~= Seq::<LinearIssue>::empty());
    r
}

/// The answer for a target: that of the group with its project and labels.
pub open spec fn answer_for(
    groups: Seq<GroupView>,
    answers: Seq<Option<LinearAnswer>>,
    t: LinearTarget,
) -> Option<LinearAnswer> {
    match group_from(groups, t.project_id@, views(t.labels@), 0) {
        Some(g) => if g < answers.len() {
            answers[g]
        } else {
            None
        },
        None => None,
    }
}

/// The Linear rows of a workspace with the given source.
pub open spec fn view_for(
    groups: Seq<GroupView>,
    answers: Seq<Option<LinearAnswer>>,
    source: Option<TaskSource>,
) -> Option<LinearView> {
    match source {
        Some(TaskSource::LinearUnavailable) => Some(incomplete_view()),
        Some(TaskSource::Linear(t)) => match answer_for(groups, answers, t) {
            Some(a) => Some(
                LinearView {
                    project_id: t.project_id@,
                    labels: views(t.labels@),
                    feature: opt_view(t.feature_name),
                    issues: a.issues@,
                    warning: opt_view(a.warning),
                },
            ),
            None => None,
        },
        _ => None,
    }
}

fn position_of(groups: &Vec<QueryGroup>, t: &LinearTarget) -> (r: Option<usize>)
    ensures
        (match r {
            Some(k) => Some(k as int),
            None => None,
        }) == group_from(group_views(groups@), t.project_id@, views(t.labels@), 0),
        r is Some ==> r.unwrap() < groups@.len(),
{
    let ghost all = group_views(groups@);
    let mut i: usize = 0;
    while i < groups.len()
        invariant
            i <= groups@.len(),
            all == group_views(groups@),
            group_from(all, t.project_id@, views(t.labels@), 0) == group_from(
                all,
                t.project_id@,
                views(t.labels@),
                i as int,
            ),
        decreases groups@.len() - i,
    {
        assert(all[i as int] == groups@[i as int]@);
        if same(groups[i].project_id.as_str(), t.project_id.as_str()) && same_texts(
            &groups[i].labels,
            &t.labels,
        ) {
            return Some(i);
        }
        i += 1;
    }
    None
}

fn linear_view_for(
    groups: &Vec<QueryGroup>,
    answers: &Vec<Option<LinearAnswer>>,
    source: &TaskSource,
) -> (r: Option<WorkspaceLinearView>)
    ensures
        (match r {
            Some(v) => Some(v@),
            None => None,
        }) == view_for(group_views(groups@), answers@, Some(*source)),
{
    match source {
        TaskSource::LinearUnavailable => Some(incomplete_linear_view()),
        TaskSource::Linear(t) => match position_of(groups, t) {
            Some(g) => {
                if g >= answers.len() {
                    return None;
                }
                match &answers[g] {
                    Some(a) => Some(
                        WorkspaceLinearView {
                            project_id: t.project_id.clone(),
                            required_labels: clone_strings(&t.labels),
                            feature_name: clone_opt(&t.feature_name),
                            issues: clone_issues(&a.issues),
                            warning: clone_opt(&a.warning),
                        },
                    ),
                    None => None,
                }
            },
            None => None,
        },
        _ => None,
    }
}

/// The Linear rows of all workspaces: `answers` holds the answer to each query, in
/// the order of the groups; a query without one leaves its workspaces without rows.
pub fn gather_linear_views(
    task_sources: &Assoc<TaskSource>,
    answers: &Vec<Option<LinearAnswer>>,
) -> (r: Assoc<WorkspaceLinearView>)
    requires
        task_sources.well_formed(),
    ensures
        r.well_formed(),
        forall|k: Seq<char>|
            (match #[trigger] r.lookup(k) {
                Some(v) => Some(v@),
                None => None,
            }) == view_for(
                grouped(task_sources.entries@, task_sources.entries@.len() as int),
                answers@,
                task_sources.lookup(k),
            ),
{
    let groups = linear_query_groups(task_sources);
    let ghost gs = group_views(groups@);
    let ghost es = task_sources.entries@;
    let mut out: Assoc<WorkspaceLinearView> = Assoc::new();
    let mut i: usize = 0;
    assert forall|k: Seq<char>| true implies match #[trigger] key_from(es, k, 0) {
        Some(e) => 0 <= e,
        None => true,
    } by {
        lemma_key_from(es, k, 0);
    }
    while i < task_sources.entries.len()
        invariant
            i <= es.len(),
            es == task_sources.entries@,
            task_sources.well_formed(),
            gs == group_views(groups@),
            out.well_formed(),
            forall|k: Seq<char>|
                (match #[trigger] out.lookup(k) {
                    Some(v) => Some(v@),
                    None => None,
                }) == (match key_from(es, k, 0) {
                    Some(e) if e < i => view_for(gs, answers@, Some(es[e].1)),
                    _ => None,
                }),
        decreases es.len() - i,
    {
        let ghost before = out;
        let ghost id = es[i as int].0@;
        proof {
            lemma_key_from(es, id, 0);
        }
        if let Some(v) = linear_view_for(&groups, answers, &task_sources.entries[i].1) {
            out.insert(task_sources.entries[i].0.clone(), v);
        }
        assert forall|k: Seq<char>| true implies (match #[trigger] out.lookup(k) {
            Some(v) => Some(v@),
            None => None,
        }) == (match key_from(es, k, 0) {
            Some(e) if e < i + 1 => view_for(gs, answers@, Some(es[e].1)),
            _ => None,
        }) by {
            lemma_key_from(es, k, 0);
            if k == id {
                let e = key_from(es, k, 0).unwrap();
                assert(es[e].0@ == es[i as int].0@);
                assert(e == i);
                assert(before.lookup(k) is None);
            } else {
                assert(out.lookup(k) == before.lookup(k));
            }
        }
        i += 1;
    }
    assert forall|k: Seq<char>| true implies (match #[trigger] out.lookup(k) {
        Some(v) => Some(v@),
        None => None,
    }) == view_for(gs, answers@, task_sources.lookup(k)) by {
        lemma_key_from(es, k, 0);
    }
    out
}

/// Every registered target is answered for by one of the queries.
pub proof fn every_target_is_asked_for(s: Seq<(String, TaskSource)>, n: int, i: int)
    requires
        0 <= i < n <= s.len(),
        s[i].1 is Linear,
    ensures
        ({
            let t = s[i].1->Linear_0;
            group_from(grouped(s, n), t.project_id@, views(t.labels@), 0) is Some
        }),
    decreases n,
{
    let t = s[i].1->Linear_0;
    let p = t.project_id@;
    let l = views(t.labels@);
    let before = grouped(s, n - 1);
    if i < n - 1 {
        every_target_is_asked_for(s, n - 1, i);
        lemma_group_from(before, p, l, 0);
        let k = group_from(before, p, l, 0).unwrap();
        assert(before[k].project_id == p && before[k].labels == l);
        if s[n - 1].1 is Linear {
            let u = s[n - 1].1->Linear_0;
            lemma_group_from(before, u.project_id@, views(u.labels@), 0);
        }
        assert(grouped(s, n)[k].project_id == p && grouped(s, n)[k].labels == l);
        lemma_group_from(grouped(s, n), p, l, 0);
    } else {
        lemma_group_from(before, p, l, 0);
        let now = grouped(s, n);
        match group_from(before, p, l, 0) {
            Some(k) => {
                assert(now[k].project_id == p && now[k].labels == l);
            },
            None => {
                assert(now[before.len() as int].project_id == p);
                assert(now[before.len() as int].labels == l);
            },
        }
        lemma_group_from(now, p, l, 0);
    }
}

} // verus!
