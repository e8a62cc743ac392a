//! Projecting surfaces and tasks into a workspace's document.
use crate::app::{
    highlighted_repo, highlighted_surface_repo, inserting, is_inserting, only_workspaces, App,
};
use crate::assoc::Assoc;
use crate::intent::{surface_intent_summary, told_intent, ConversationIntent};
use crate::mesh::remote_surface_is_current;
use crate::mesh::RemoteFreshness;
use crate::search::{contains, has_text};
use crate::surface::SurfaceKind;
use crate::tasks::{
    beads_items_for_view, beads_rows, is_projected, is_projected_task_row,
    items_equal_for_projection, linear_items_for_view, linear_rows, own_rows, same_opt, stripped,
};
use crate::text::{chars_of, clone_opt, concat2, concat3, opt_view, same, trim, trim_chars};
use crate::trajectory::{
    item_views, lemma_section_names_differ, replaced_rows_are_found, rows_named, with_section,
    DocView, Item, ItemView, SECTION_CURRENT_SURFACES, SECTION_GOALS, SECTION_MISSION,
};
use crate::workspace::WorkspaceState;
use vstd::prelude::*;

verus! {

// ---------------------------------------------------------------------------
// Rows of surfaces
// ---------------------------------------------------------------------------

/// What is known of a surface beyond what the multiplexer reports.
#[derive(Debug)]
pub struct SurfaceFacts {
    /// Its kind, an agent that left it a moment ago counted in.
    pub effective: SurfaceKind,
    /// Kind and title of the remote session that it is bound to.
    pub remote_kind: SurfaceKind,
    pub remote_title: String,
    /// The intent of its own session.
    pub resolved: Option<ConversationIntent>,
    /// The intent of the workspace's session.
    pub session: Option<ConversationIntent>,
    /// The request on the screen, summarized.
    pub screen_ask: Option<String>,
    /// The first open goal that is assigned to it, summarized.
    pub goal: Option<String>,
}

/// What the row of a surface tells.
#[derive(Debug)]
pub struct SurfaceRow {
    pub surface_ref: String,
    pub kind: SurfaceKind,
    pub title: String,
    pub intent: Option<ConversationIntent>,
}

/// The row of surface `i`; none when the remote session that it is bound to is gone.
/// A bound surface tells its session's kind and title; a remote client what was
/// inferred for it; an agent its intent.
pub open spec fn row_of(
    w: WorkspaceState,
    facts: Seq<SurfaceFacts>,
    inferred: Assoc<ConversationIntent>,
    i: int,
) -> Option<SurfaceRow> {
    let s = w.surfaces@[i];
    let f = facts[i];
    match w.remote_surfaces.lookup(s.ref_id@) {
        Some(remote) => if remote.freshness == RemoteFreshness::Gone {
            None
        } else {
            Some(
                SurfaceRow {
                    surface_ref: s.ref_id,
                    kind: f.remote_kind,
                    title: f.remote_title,
                    intent: None,
                },
            )
        },
        None => Some(
            SurfaceRow {
                surface_ref: s.ref_id,
                kind: f.effective,
                title: s.title,
                intent: if f.effective == SurfaceKind::Remote {
                    inferred.lookup(s.ref_id@)
                } else {
                    told_intent(
                        f.resolved,
                        f.session,
                        f.screen_ask,
                        s.focused,
                        f.effective,
                        f.goal,
                    )
                },
            },
        ),
    }
}

/// The rows of the first `n` surfaces.
pub open spec fn rows_of(
    w: WorkspaceState,
    facts: Seq<SurfaceFacts>,
    inferred: Assoc<ConversationIntent>,
    n: int,
) -> Seq<SurfaceRow>
    decreases n,
{
    if n <= 0 {
        Seq::empty()
    } else {
        match row_of(w, facts, inferred, n - 1) {
            Some(r) => rows_of(w, facts, inferred, n - 1).push(r),
            None => rows_of(w, facts, inferred, n - 1),
        }
    }
}

fn surface_row(
    ws: &WorkspaceState,
    facts: &Vec<SurfaceFacts>,
    inferred: &Assoc<ConversationIntent>,
    i: usize,
) -> (r: Option<SurfaceRow>)
    requires
        i < ws.surfaces@.len(),
        facts@.len() == ws.surfaces@.len(),
    ensures
        r == row_of(*ws, facts@, *inferred, i as int),
{
    let s = &ws.surfaces[i];
    let f = &facts[i];
    let remote = ws.remote_surfaces.get(s.ref_id.as_str());
    if !remote_surface_is_current(remote) {
        return None;
    }
    if remote.is_some() {
        return Some(
            SurfaceRow {
                surface_ref: s.ref_id.clone(),
                kind: f.remote_kind,
                title: f.remote_title.clone(),
                intent: None,
            },
        );
    }
    let intent = if f.effective == SurfaceKind::Remote {
        match inferred.get(s.ref_id.as_str()) {
            Some(x) => Some(x.clone()),
            None => None,
        }
    } else {
        surface_intent_summary(
            f.resolved.as_ref(),
            f.session.as_ref(),
            &f.screen_ask,
            s,
            f.effective,
            &f.goal,
        )
    };
    Some(
        SurfaceRow {
            surface_ref: s.ref_id.clone(),
            kind: f.effective,
            title: s.title.clone(),
            intent,
        },
    )
}

/// What the rows of a workspace's surfaces tell.
pub fn surface_rows(
    ws: &WorkspaceState,
    facts: &Vec<SurfaceFacts>,
    inferred: &Assoc<ConversationIntent>,
) -> (r: Vec<SurfaceRow>)
    requires
        facts@.len() == ws.surfaces@.len(),
    ensures
        r@ == rows_of(*ws, facts@, *inferred, ws.surfaces@.len() as int),
{
    let mut out: Vec<SurfaceRow> = Vec::new();
    let mut i: usize = 0;
    while i < ws.surfaces.len()
        invariant
            i <= ws.surfaces@.len(),
            facts@.len() == ws.surfaces@.len(),
            out@ == rows_of(*ws, facts@, *inferred, i as int),
        decreases ws.surfaces@.len() - i,
    {
        if let Some(r) = surface_row(ws, facts, inferred, i) {
            out.push(r);
        }
        i += 1;
    }
    out
}

/// A formatted row and the surface that it stands for.
#[derive(Debug)]
pub struct RowText {
    pub text: String,
    pub surface_ref: String,
}

/// The rows of the section of open surfaces.
pub open spec fn surface_items(rows: Seq<RowText>) -> Seq<ItemView> {
    rows.map_values(
        |r: RowText|
            ItemView {
                text: r.text@,
                is_checkbox: false,
                checked: None,
                surface_id: Some(r.surface_ref@),
            },
    )
}

fn items_from(rows: &Vec<RowText>) -> (r: Vec<Item>)
    ensures
        item_views(r@) == surface_items(rows@),
{
    let mut out: Vec<Item> = Vec::new();
    let mut i: usize = 0;
    while i < rows.len()
        invariant
            i <= rows@.len(),
            item_views(out@) =~= surface_items(rows@).take(i as int),
        decreases rows@.len() - i,
    {
        let item = Item {
            text: rows[i].text.clone(),
            is_checkbox: false,
            checked: None,
            surface_id: Some(rows[i].surface_ref.clone()),
        };
        let ghost before = out@;
        out.push(item);
        assert(item_views(out@) =~= item_views(before).push(item@));
        assert(surface_items(rows@)[i as int] == item@);
        i += 1;
    }
    assert(item_views(out@) =~= surface_items(rows@));
    out
}

/// Two lists of rows show the same surfaces with the same texts.
pub open spec fn same_surfaces(a: Seq<ItemView>, b: Seq<ItemView>) -> bool {
    a.len() == b.len() && forall|i: int|
        0 <= i < a.len() ==> (#[trigger] a[i]).text == b[i].text && a[i].surface_id
            == b[i].surface_id
}

fn surfaces_equal(a: &Vec<Item>, b: &Vec<Item>) -> (r: bool)
    ensures
        r == same_surfaces(item_views(a@), item_views(b@)),
{
    let ghost av = item_views(a@);
    let ghost bv = item_views(b@);
    assert(av.len() == a@.len() && bv.len() == b@.len());
    if a.len() != b.len() {
        return false;
    }
    let mut i: usize = 0;
    while i < a.len()
        invariant
            i <= a@.len() == b@.len(),
            av == item_views(a@),
            bv == item_views(b@),
            forall|k: int|
                0 <= k < i ==> (#[trigger] av[k]).text == bv[k].text && av[k].surface_id
                    == bv[k].surface_id,
        decreases a@.len() - i,
    {
        assert(av[i as int] == a@[i as int]@ && bv[i as int] == b@[i as int]@);
        if !same(a[i].text.as_str(), b[i].text.as_str()) || !same_opt(
            &a[i].surface_id,
            &b[i].surface_id,
        ) {
            return false;
        }
        i += 1;
    }
    true
}

// ---------------------------------------------------------------------------
// Rows of goals
// ---------------------------------------------------------------------------

/// A goal's row taken apart: its text without badge and identifier, the identifier
/// that it has, and the badge that it should have.
#[derive(Debug)]
pub struct GoalFacts {
    pub raw: String,
    pub id: Option<String>,
    pub badge: Option<String>,
    pub identified: bool,
}

/// What the goals file says: whether it holds goals, whether goals get identifiers,
/// and the identifiers that are next.
#[derive(Debug)]
pub struct GoalsInput {
    pub has_goals: bool,
    pub has_prefix: bool,
    /// The prefix was picked just now.
    pub prefix_picked: bool,
    /// One entry for each row of the task section.
    pub rows: Vec<GoalFacts>,
    pub fresh_ids: Vec<String>,
}

/// The facts of the rows among the first `n` that no tracker projected.
pub open spec fn own_facts(items: Seq<ItemView>, facts: Seq<GoalFacts>, n: int) -> Seq<GoalFacts>
    decreases n,
{
    if n <= 0 {
        Seq::empty()
    } else if is_projected(items[n - 1].text) {
        own_facts(items, facts, n - 1)
    } else {
        own_facts(items, facts, n - 1).push(facts[n - 1])
    }
}

/// A row is not blank.
pub open spec fn is_goal(i: ItemView) -> bool {
    trim(i.text).len() > 0
}

/// Some row is a goal.
pub open spec fn any_goal(items: Seq<ItemView>) -> bool {
    exists|i: int| 0 <= i < items.len() && is_goal(#[trigger] items[i])
}

/// Some row carries a badge.
pub open spec fn any_badge(items: Seq<ItemView>) -> bool {
    exists|i: int| 0 <= i < items.len() && has_text((#[trigger] items[i]).text, "   → "@)
}

/// Some goal has no identifier.
pub open spec fn any_missing(items: Seq<ItemView>, facts: Seq<GoalFacts>) -> bool {
    exists|i: int|
        0 <= i < items.len() && is_goal(#[trigger] items[i]) && !facts[i].identified
}

/// The rows of goals are written anew: there are goals on file, or badges, or goals
/// without the identifier that they should have.
pub open spec fn needs_rebuild(
    items: Seq<ItemView>,
    facts: Seq<GoalFacts>,
    has_goals: bool,
    has_prefix: bool,
) -> bool {
    has_goals || any_badge(items) || has_prefix && any_missing(items, facts)
}

/// A goal takes a new identifier.
pub open spec fn takes_id(f: GoalFacts, has_prefix: bool) -> bool {
    trim(f.raw@).len() > 0 && f.id is None && has_prefix
}

/// How many of the first `n` goals take a new identifier.
pub open spec fn ids_taken(facts: Seq<GoalFacts>, has_prefix: bool, n: int) -> int
    decreases n,
{
    if n <= 0 {
        0
    } else {
        ids_taken(facts, has_prefix, n - 1) + (if takes_id(facts[n - 1], has_prefix) {
            1int
        } else {
            0int
        })
    }
}

/// The identifier of goal `k`: its own, or the next new one.
pub open spec fn id_of(
    facts: Seq<GoalFacts>,
    has_prefix: bool,
    fresh: Seq<String>,
    k: int,
) -> Option<Seq<char>> {
    let f = facts[k];
    if trim(f.raw@).len() == 0 {
        None
    } else if f.id is Some {
        opt_view(f.id)
    } else if has_prefix && ids_taken(facts, has_prefix, k) < fresh.len() {
        Some(fresh[ids_taken(facts, has_prefix, k)]@)
    } else {
        None
    }
}

/// The text of goal `k`: identifier, text and badge.
pub open spec fn goal_text(
    facts: Seq<GoalFacts>,
    has_prefix: bool,
    fresh: Seq<String>,
    k: int,
) -> Seq<char> {
    let named = match id_of(facts, has_prefix, fresh, k) {
        Some(id) => "["@ + id + "] "@ + facts[k].raw@,
        None => facts[k].raw@,
    };
    match facts[k].badge {
        Some(b) => named + b@,
        None => named,
    }
}

/// The rows of goals, written anew.
pub open spec fn goal_rows(
    items: Seq<ItemView>,
    facts: Seq<GoalFacts>,
    has_prefix: bool,
    fresh: Seq<String>,
) -> Seq<ItemView> {
    Seq::new(
        items.len(),
        |k: int| ItemView { text: goal_text(facts, has_prefix, fresh, k), ..items[k] },
    )
}

/// What becomes of the task section.
#[verifier::ext_equal]
pub struct TaskPlan {
    pub unchanged: bool,
    pub rows: Option<Seq<ItemView>>,
    pub ids_taken: int,
}

/// What becomes of the task section: a tracker's rows replace it; without one, rows
/// that a tracker left behind are dropped and the goals are written anew where that
/// is needed.
pub open spec fn task_plan(w: WorkspaceState, existing: Seq<ItemView>, g: GoalsInput) -> TaskPlan {
    if w.linear is Some {
        let rows = linear_rows(w.linear.unwrap()@);
        TaskPlan { unchanged: existing == rows, rows: Some(rows), ids_taken: 0 }
    } else if w.beads is Some {
        let rows = beads_rows(w.beads.unwrap().repos@, highlighted_repo(w));
        TaskPlan { unchanged: existing == rows, rows: Some(rows), ids_taken: 0 }
    } else {
        let own = stripped(existing);
        let facts = own_facts(existing, g.rows@, existing.len() as int);
        if needs_rebuild(own, facts, g.has_goals, g.has_prefix) {
            let rows = goal_rows(own, facts, g.has_prefix, g.fresh_ids@);
            TaskPlan {
                unchanged: own == rows,
                rows: Some(rows),
                ids_taken: ids_taken(facts, g.has_prefix, facts.len() as int),
            }
        } else if own.len() != existing.len() {
            TaskPlan { unchanged: false, rows: Some(own), ids_taken: 0 }
        } else {
            TaskPlan { unchanged: true, rows: None, ids_taken: 0 }
        }
    }
}

/// The document may be projected into: there is one, and the user is not busy with
/// it.
pub open spec fn is_open(w: WorkspaceState) -> bool {
    !inserting(w) && w.peek_state is None && w.trajectory is Some
}

/// The document after the projection.
pub open spec fn projected(w: WorkspaceState, rows: Seq<RowText>, g: GoalsInput) -> DocView {
    let d = w.trajectory.unwrap()@;
    let plan = task_plan(w, rows_named(d, SECTION_GOALS@), g);
    if same_surfaces(rows_named(d, SECTION_CURRENT_SURFACES@), surface_items(rows))
        && plan.unchanged {
        d
    } else {
        let with_surfaces = with_section(d, SECTION_CURRENT_SURFACES@, surface_items(rows));
        match plan.rows {
            Some(r) => with_section(with_surfaces, SECTION_GOALS@, r),
            None => with_surfaces,
        }
    }
}

/// The projection changes the document.
pub open spec fn projection_changes(w: WorkspaceState, rows: Seq<RowText>, g: GoalsInput) -> bool {
    let d = w.trajectory.unwrap()@;
    !(same_surfaces(rows_named(d, SECTION_CURRENT_SURFACES@), surface_items(rows)) && task_plan(
        w,
        rows_named(d, SECTION_GOALS@),
        g,
    ).unchanged)
}

/// What the caller does after a projection.
#[derive(Debug, Clone, Copy, PartialEq, Eq, Structural)]
pub struct Projection {
    /// The document changed and is to be saved.
    pub save_document: bool,
    /// The goals file changed and is to be saved.
    pub save_goals: bool,
    /// How many new identifiers were taken.
    pub ids_taken: usize,
}

/// What the caller does after a projection into `w`.
pub open spec fn follow_up(w: WorkspaceState, rows: Seq<RowText>, g: GoalsInput) -> Projection {
    if is_open(w) {
        let plan = task_plan(w, rows_named(w.trajectory.unwrap()@, SECTION_GOALS@), g);
        Projection {
            save_document: projection_changes(w, rows, g),
            save_goals: w.linear is None && w.beads is None && (g.prefix_picked || plan.ids_taken
                > 0),
            ids_taken: plan.ids_taken as usize,
        }
    } else {
        Projection { save_document: false, save_goals: false, ids_taken: 0 }
    }
}

// ---------------------------------------------------------------------------
// Execution
// ---------------------------------------------------------------------------

struct OwnRows<'a> {
    items: Vec<Item>,
    facts: Vec<&'a GoalFacts>,
}

/// The facts behind references.
pub open spec fn facts_behind(s: Seq<&GoalFacts>) -> Seq<GoalFacts> {
    s.map_values(|f: &GoalFacts| *f)
}

fn own_rows_with_facts<'a>(items: &Vec<Item>, facts: &'a Vec<GoalFacts>) -> (r: OwnRows<'a>)
    requires
        items@.len() == facts@.len(),
    ensures
        item_views(r.items@) == stripped(item_views(items@)),
        facts_behind(r.facts@) == own_facts(item_views(items@), facts@, items@.len() as int),
        r.items@.len() == r.facts@.len(),
{
    let ghost all = item_views(items@);
    let mut kept: Vec<Item> = Vec::new();
    let mut known: Vec<&'a GoalFacts> = Vec::new();
    let mut i: usize = 0;
    assert(item_views(kept@) =~= Seq::<ItemView>::empty());
    assert(facts_behind(known@) =~= Seq::<GoalFacts>::empty());
    while i < items.len()
        invariant
            i <= items@.len(),
            items@.len() == facts@.len(),
            all == item_views(items@),
            item_views(kept@) == own_rows(all, i as int),
            facts_behind(known@) == own_facts(all, facts@, i as int),
            kept@.len() == known@.len(),
        decreases items@.len() - i,
    {
        assert(all[i as int] == items@[i as int]@);
        if !is_projected_task_row(items[i].text.as_str()) {
            let ghost k0 = kept@;
            let ghost f0 = known@;
            let item = items[i].clone();
            kept.push(item);
            known.push(&facts[i]);
            assert(item_views(kept@) =~= item_views(k0).push(item@));
            assert(facts_behind(known@) =~= facts_behind(f0).push(facts@[i as int]));
        }
        i += 1;
    }
    OwnRows { items: kept, facts: known }
}

fn blank(s: &str) -> (r: bool)
    ensures
        r == (trim(s@).len() == 0),
{
    trim_chars(&chars_of(s)).len() == 0
}

fn rebuild_needed(own: &OwnRows, has_goals: bool, has_prefix: bool) -> (r: bool)
    requires
        own.items@.len() == own.facts@.len(),
    ensures
        r == needs_rebuild(
            item_views(own.items@),
            facts_behind(own.facts@),
            has_goals,
            has_prefix,
        ),
{
    if has_goals {
        return true;
    }
    let ghost items = item_views(own.items@);
    let ghost facts = facts_behind(own.facts@);
    let mut badge = false;
    let mut missing = false;
    let mut i: usize = 0;
    while i < own.items.len()
        invariant
            i <= own.items@.len(),
            own.items@.len() == own.facts@.len(),
            items == item_views(own.items@),
            facts == facts_behind(own.facts@),
            badge == (exists|k: int|
                0 <= k < i && has_text((#[trigger] items[k]).text, "   → "@)),
            missing == (exists|k: int|
                0 <= k < i && is_goal(#[trigger] items[k]) && !facts[k].identified),
        decreases own.items@.len() - i,
    {
        assert(items[i as int] == own.items@[i as int]@);
        assert(facts[i as int] == *own.facts@[i as int]);
        if contains(&chars_of(own.items[i].text.as_str()), "   → ") {
            badge = true;
        }
        if !blank(own.items[i].text.as_str()) && !own.facts[i].identified {
            missing = true;
        }
        i += 1;
    }
    badge || (has_prefix && missing)
}

fn rebuild_goals(own: &OwnRows, has_prefix: bool, fresh: &Vec<String>) -> (r: (Vec<Item>, usize))
    requires
        own.items@.len() == own.facts@.len(),
    ensures
        item_views(r.0@) == goal_rows(
            item_views(own.items@),
            facts_behind(own.facts@),
            has_prefix,
            fresh@,
        ),
        r.1 == ids_taken(facts_behind(own.facts@), has_prefix, own.facts@.len() as int),
{
    let ghost items = item_views(own.items@);
    let ghost facts = facts_behind(own.facts@);
    let ghost want = goal_rows(items, facts, has_prefix, fresh@);
    let mut out: Vec<Item> = Vec::new();
    let mut taken: usize = 0;
    let mut i: usize = 0;
    while i < own.items.len()
        invariant
            i <= own.items@.len(),
            own.items@.len() == own.facts@.len(),
            items == item_views(own.items@),
            facts == facts_behind(own.facts@),
            want == goal_rows(items, facts, has_prefix, fresh@),
            taken <= i,
            taken == ids_taken(facts, has_prefix, i as int),
            item_views(out@) =~= want.take(i as int),
        decreases own.items@.len() - i,
    {
        assert(items[i as int] == own.items@[i as int]@);
        assert(facts[i as int] == *own.facts@[i as int]);
        let f = own.facts[i];
        let mut id: Option<String> = None;
        if !blank(f.raw.as_str()) {
            match &f.id {
                Some(x) => {
                    id = Some(x.clone());
                },
                None => {
                    if has_prefix {
                        if taken < fresh.len() {
                            id = Some(fresh[taken].clone());
                        }
                        taken += 1;
                    }
                },
            }
        }
        assert(opt_view(id) == id_of(facts, has_prefix, fresh@, i as int));
        let mut text = match &id {
            Some(x) => {
                let head = concat3("[", x.as_str(), "] ");
                concat2(head.as_str(), f.raw.as_str())
            },
            None => f.raw.clone(),
        };
        if let Some(b) = &f.badge {
            text.append(b.as_str());
        }
        assert(text@ == goal_text(facts, has_prefix, fresh@, i as int));
        let item = Item {
            text,
            is_checkbox: own.items[i].is_checkbox,
            checked: own.items[i].checked,
            surface_id: clone_opt(&own.items[i].surface_id),
        };
        let ghost before = out@;
        out.push(item);
        assert(item_views(out@) =~= item_views(before).push(item@));
        assert(item@ =~= want[i as int]);
        i += 1;
    }
    assert(item_views(out@) =~= want);
    (out, taken)
}

struct TaskRows {
    unchanged: bool,
    rows: Option<Vec<Item>>,
    ids_taken: usize,
}

/// What rows say, if there are any.
spec fn rows_view(r: Option<Vec<Item>>) -> Option<Seq<ItemView>> {
    match r {
        Some(v) => Some(item_views(v@)),
        None => None,
    }
}

fn plan_tasks(ws: &WorkspaceState, existing: &Vec<Item>, goals: &GoalsInput) -> (r: TaskRows)
    requires
        ws.linear is None && ws.beads is None ==> goals.rows@.len() == existing@.len(),
    ensures
        (TaskPlan {
            unchanged: r.unchanged,
            rows: rows_view(r.rows),
            ids_taken: r.ids_taken as int,
        }) == task_plan(*ws, item_views(existing@), *goals),
{
    if let Some(linear) = &ws.linear {
        let rows = linear_items_for_view(linear);
        return TaskRows {
            unchanged: items_equal_for_projection(existing, &rows),
            rows: Some(rows),
            ids_taken: 0,
        };
    }
    if let Some(beads) = &ws.beads {
        let repo = highlighted_surface_repo(ws);
        let rows = beads_items_for_view(
            beads,
            match &repo {
                Some(p) => Some(p.as_str()),
                None => None,
            },
        );
        return TaskRows {
            unchanged: items_equal_for_projection(existing, &rows),
            rows: Some(rows),
            ids_taken: 0,
        };
    }
    let ghost all = item_views(existing@);
    assert(all.len() == existing@.len());
    let own = own_rows_with_facts(existing, &goals.rows);
    assert(item_views(own.items@).len() == own.items@.len());
    assert(facts_behind(own.facts@).len() == own.facts@.len());
    if rebuild_needed(&own, goals.has_goals, goals.has_prefix) {
        let (rows, taken) = rebuild_goals(&own, goals.has_prefix, &goals.fresh_ids);
        TaskRows {
            unchanged: items_equal_for_projection(&own.items, &rows),
            rows: Some(rows),
            ids_taken: taken,
        }
    } else if own.items.len() != existing.len() {
        TaskRows { unchanged: false, rows: Some(own.items), ids_taken: 0 }
    } else {
        TaskRows { unchanged: true, rows: None, ids_taken: 0 }
    }
}

/// The workspace's goals are to get identifiers, and no prefix for them was picked
/// yet.
pub open spec fn wants_prefix(w: WorkspaceState, has_prefix: bool) -> bool {
    is_open(w) && w.linear is None && w.beads is None && !has_prefix && any_goal(
        stripped(rows_named(w.trajectory.unwrap()@, SECTION_GOALS@)),
    )
}

/// Whether a prefix is to be picked for the workspace's goals.
pub fn needs_prefix(ws: &WorkspaceState, has_prefix: bool) -> (r: bool)
    ensures
        r == wants_prefix(*ws, has_prefix),
{
    if is_inserting(ws) || ws.peek_state.is_some() || ws.linear.is_some() || ws.beads.is_some()
        || has_prefix {
        return false;
    }
    match &ws.trajectory {
        None => false,
        Some(doc) => {
            let existing = doc.rows(SECTION_GOALS);
            let (own, _) = crate::tasks::strip_projected_task_rows(&existing);
            let ghost items = item_views(own@);
            let mut i: usize = 0;
            while i < own.len()
                invariant
                    i <= own@.len(),
                    items == item_views(own@),
                    wants_prefix(*ws, has_prefix) == any_goal(items),
                    forall|k: int| 0 <= k < i ==> !is_goal(#[trigger] items[k]),
                decreases own@.len() - i,
            {
                assert(items[i as int] == own@[i as int]@);
                if !blank(own[i].text.as_str()) {
                    return true;
                }
                i += 1;
            }
            false
        },
    }
}

/// Projects surfaces and tasks into a workspace's document.
pub fn project(ws: &mut WorkspaceState, rows: &Vec<RowText>, goals: &GoalsInput) -> (r: Projection)
    requires
        is_open(*old(ws)) && old(ws).linear is None && old(ws).beads is None ==> goals.rows@.len()
            == rows_named(old(ws).trajectory.unwrap()@, SECTION_GOALS@).len(),
    ensures
        *final(ws) == (WorkspaceState { trajectory: final(ws).trajectory, ..*old(ws) }),
        r == follow_up(*old(ws), rows@, *goals),
        is_open(*old(ws)) ==> final(ws).trajectory is Some && final(ws).trajectory.unwrap()@
            == projected(*old(ws), rows@, *goals),
        !is_open(*old(ws)) ==> *final(ws) == *old(ws),
{
    let nothing = Projection { save_document: false, save_goals: false, ids_taken: 0 };
    if is_inserting(ws) || ws.peek_state.is_some() {
        return nothing;
    }
    let (shown, existing) = match &ws.trajectory {
        Some(doc) => (doc.rows(SECTION_CURRENT_SURFACES), doc.rows(SECTION_GOALS)),
        None => {
            return nothing;
        },
    };
    assert(item_views(existing@).len() == existing@.len());
    let plan = plan_tasks(ws, &existing, goals);
    let items = items_from(rows);
    let local = ws.linear.is_none() && ws.beads.is_none();
    let save_goals = local && (goals.prefix_picked || plan.ids_taken > 0);
    let unchanged = surfaces_equal(&shown, &items) && plan.unchanged;
    let ids_taken: usize = plan.ids_taken;
    if !unchanged {
        match &mut ws.trajectory {
            Some(doc) => {
                doc.replace_section_items(SECTION_CURRENT_SURFACES, items);
                if let Some(r) = plan.rows {
                    doc.replace_section_items(SECTION_GOALS, r);
                }
            },
            None => {},
        }
    }
    Projection { save_document: !unchanged, save_goals, ids_taken }
}

impl App {
    /// Projects surfaces and tasks into the document of the workspace at a position.
    pub fn project_workspace(&mut self, idx: usize, rows: &Vec<RowText>, goals: &GoalsInput) -> (r:
        Projection)
        requires
            idx < old(self).workspaces@.len(),
            ({
                let w = old(self).workspaces@[idx as int];
                is_open(w) && w.linear is None && w.beads is None ==> goals.rows@.len()
                    == rows_named(w.trajectory.unwrap()@, SECTION_GOALS@).len()
            }),
        ensures
            old(self).well_formed() ==> final(self).well_formed(),
            only_workspaces(*old(self), *final(self)),
            ({
                let w = old(self).workspaces@[idx as int];
                let v = final(self).workspaces@[idx as int];
                &&& final(self).workspaces@ == old(self).workspaces@.update(idx as int, v)
                &&& v == (WorkspaceState { trajectory: v.trajectory, ..w })
                &&& is_open(w) ==> v.trajectory is Some && v.trajectory.unwrap()@ == projected(
                    w,
                    rows@,
                    *goals,
                )
                &&& !is_open(w) ==> v == w
                &&& r == follow_up(w, rows@, *goals)
            }),
    {
        let ghost before = self.workspaces@;
        let r = project(&mut self.workspaces[idx], rows, goals);
        assert(self.workspaces@ =~= before.update(idx as int, self.workspaces@[idx as int]));
        r
    }
}

// ---------------------------------------------------------------------------
// Laws
// ---------------------------------------------------------------------------

/// After a projection that changes the document, the section of open surfaces shows
/// exactly the surfaces, a tracker's section exactly its rows, and the missions are
/// as they were.
pub proof fn a_projection_shows_surfaces_and_tasks(
    w: WorkspaceState,
    rows: Seq<RowText>,
    g: GoalsInput,
)
    requires
        is_open(w),
        projection_changes(w, rows, g),
    ensures
        ({
            let d = w.trajectory.unwrap()@;
            let p = projected(w, rows, g);
            let plan = task_plan(w, rows_named(d, SECTION_GOALS@), g);
            &&& rows_named(p, SECTION_CURRENT_SURFACES@) == surface_items(rows)
            &&& rows_named(p, SECTION_MISSION@) == rows_named(d, SECTION_MISSION@)
            &&& p.mission_history == d.mission_history
            &&& rows_named(p, SECTION_GOALS@) == (match plan.rows {
                Some(r) => r,
                None => rows_named(d, SECTION_GOALS@),
            })
        }),
{
    lemma_section_names_differ();
    let d = w.trajectory.unwrap()@;
    let items = surface_items(rows);
    let m = with_section(d, SECTION_CURRENT_SURFACES@, items);
    replaced_rows_are_found(d, SECTION_CURRENT_SURFACES@, items, SECTION_MISSION@);
    replaced_rows_are_found(d, SECTION_CURRENT_SURFACES@, items, SECTION_GOALS@);
    match task_plan(w, rows_named(d, SECTION_GOALS@), g).rows {
        Some(r) => {
            replaced_rows_are_found(m, SECTION_GOALS@, r, SECTION_MISSION@);
            replaced_rows_are_found(m, SECTION_GOALS@, r, SECTION_CURRENT_SURFACES@);
        },
        None => {},
    }
}

/// A projection is stable: projecting the same again changes nothing. Beads rows are
/// ordered by the repository of the surface under the cursor, so there the cursor must
/// still be on the same repository; the workspace's own goals must not have been
/// written anew, for then what is known of them has changed too.
pub proof fn projecting_again_changes_nothing(
    w: WorkspaceState,
    v: WorkspaceState,
    rows: Seq<RowText>,
    g: GoalsInput,
)
    requires
        is_open(w),
        w.linear is Some || w.beads is Some && highlighted_repo(v) == highlighted_repo(w)
            || task_plan(w, rows_named(w.trajectory.unwrap()@, SECTION_GOALS@), g).rows is None,
        v == (WorkspaceState { trajectory: v.trajectory, ..w }),
        v.trajectory is Some,
        v.trajectory.unwrap()@ == projected(w, rows, g),
    ensures
        !projection_changes(v, rows, g),
{
    if projection_changes(w, rows, g) {
        a_projection_shows_surfaces_and_tasks(w, rows, g);
    }
}

/// A surface whose remote session is gone has no row.
pub proof fn gone_surfaces_have_no_row(
    w: WorkspaceState,
    facts: Seq<SurfaceFacts>,
    inferred: Assoc<ConversationIntent>,
    i: int,
)
    requires
        0 <= i < w.surfaces@.len(),
        w.remote_surfaces.has_key(w.surfaces@[i].ref_id@),
    ensures
        (row_of(w, facts, inferred, i) is None) == (w.remote_surfaces.lookup(
            w.surfaces@[i].ref_id@,
        ).unwrap().freshness == RemoteFreshness::Gone),
{
}

} // verus!
