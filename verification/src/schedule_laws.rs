//! When workspaces are dismissed and regenerated, and what that starts from.
use crate::app::{edited, lemma_last_index, selected_edited};
use crate::clock::Moment;
use crate::dismissal::{counted_surfaces, ids_where, is_ready, requested};
use crate::files::last_of;
use crate::regen::{
    counted, fitted_doc, gathers, is_due, learns, refused, regenerated, LearningFiles,
    LearningInputs, RegenFiles, RegenInputs,
};
use crate::text::views;
use crate::trajectory::{
    lemma_section_from, rows_named, section_is, section_named, with_canonical, with_present,
    DocView, TrajectoryDoc,
};
use crate::trajectory_edit::EditMode;
use crate::workspace::{DismissalState, RegenSchedulerState, WorkspaceState};
use vstd::prelude::*;

verus! {

// ---------------------------------------------------------------------------
// Workspaces by identity
// ---------------------------------------------------------------------------

/// A change goes to the workspace with the identity, the last one if several have it, and
/// leaves all others alone; without one nothing changes.
pub proof fn a_change_goes_to_the_identified_workspace(
    s: Seq<WorkspaceState>,
    uuid: Seq<char>,
    f: spec_fn(WorkspaceState) -> WorkspaceState,
    i: int,
)
    ensures
        0 <= i < s.len() && s[i].workspace.uuid@ == uuid && (forall|j: int|
            i < j < s.len() ==> (#[trigger] s[j]).workspace.uuid@ != uuid) ==> {
            let after = edited(s, uuid, f);
            &&& after.len() == s.len()
            &&& after[i] == f(s[i])
            &&& forall|j: int| 0 <= j < s.len() && j != i ==> (#[trigger] after[j]) == s[j]
        },
        (forall|j: int| 0 <= j < s.len() ==> (#[trigger] s[j]).workspace.uuid@ != uuid) ==> edited(
            s,
            uuid,
            f,
        ) == s,
{
    lemma_last_index(s, uuid, s.len() as int);
}

/// A change of the selected workspace leaves all others alone.
pub proof fn a_change_goes_to_the_selected_workspace(
    s: Seq<WorkspaceState>,
    selected: int,
    f: spec_fn(WorkspaceState) -> WorkspaceState,
    j: int,
)
    requires
        0 <= j < s.len(),
    ensures
        selected_edited(s, selected, f).len() == s.len(),
        selected_edited(s, selected, f)[j] == if j == selected {
            f(s[j])
        } else {
            s[j]
        },
{
}

proof fn lemma_ids(s: Seq<WorkspaceState>, p: spec_fn(WorkspaceState) -> bool, n: int)
    requires
        0 <= n <= s.len(),
    ensures
        ids_where(s, p, n) == s.take(n).filter(p).map_values(
            |w: WorkspaceState| w.workspace.uuid@,
        ),
    decreases n,
{
    reveal(Seq::filter);
    let ids = |w: WorkspaceState| w.workspace.uuid@;
    if n > 0 {
        lemma_ids(s, p, n - 1);
        assert(s.take(n).drop_last() =~= s.take(n - 1));
        assert(s.take(n).last() == s[n - 1]);
        let before = s.take(n - 1).filter(p);
        assert(before.push(s[n - 1]).map_values(ids) =~= before.map_values(ids).push(
            s[n - 1].workspace.uuid@,
        ));
        assert(ids_where(s, p, n) =~= s.take(n).filter(p).map_values(ids));
    } else {
        assert(s.take(0).len() == 0);
        assert(s.take(0).filter(p).len() == 0);
        assert(ids_where(s, p, n) =~= s.take(n).filter(p).map_values(ids));
    }
}

/// The chosen workspaces are listed in their order.
pub proof fn chosen_workspaces_are_listed_in_order(
    s: Seq<WorkspaceState>,
    p: spec_fn(WorkspaceState) -> bool,
)
    ensures
        ids_where(s, p, s.len() as int) == s.filter(p).map_values(
            |w: WorkspaceState| w.workspace.uuid@,
        ),
{
    lemma_ids(s, p, s.len() as int);
    assert(s.take(s.len() as int) =~= s);
}

// ---------------------------------------------------------------------------
// Dismissal
// ---------------------------------------------------------------------------

/// The grace period starts when the last surface closes and ends when one opens.
pub proof fn the_last_surface_starts_the_grace_period(
    d: DismissalState,
    count: u32,
    now: Moment,
)
    ensures
        counted_surfaces(d, count, now).open_surfaces == count,
        counted_surfaces(d, count, now).dismissing == d.dismissing,
        d.open_surfaces > 0 && count == 0 ==> counted_surfaces(d, count, now).grace_started_at
            == Some(now),
        count > 0 ==> counted_surfaces(d, count, now).grace_started_at is None,
        d.open_surfaces == 0 && count == 0 ==> counted_surfaces(d, count, now).grace_started_at
            == d.grace_started_at,
{
}

/// A workspace is ready for dismissal when the whole grace period has passed since its
/// start, and not a nanosecond earlier; without such a start it never is.
pub proof fn the_grace_period_must_pass(w: WorkspaceState, grace: u64, t: Moment, now: Moment)
    requires
        !w.dismissal.dismissing,
        t.nanos <= now.nanos,
    ensures
        w.dismissal.grace_started_at == Some(t) ==> (is_ready(w, grace, now) <==> now.nanos
            >= t.nanos + grace),
        w.dismissal.grace_started_at is None ==> !is_ready(w, grace, now),
{
}

/// A confirmed request dates the start of the grace period ten minutes back, and changes
/// nothing else of the workspace.
pub proof fn a_confirmed_request_dates_the_start_back(w: WorkspaceState, now: Moment)
    requires
        now.nanos >= i64::MIN + 600_000_000_000,
    ensures
        !w.dismissal.dismissing ==> requested(w, now).dismissal.grace_started_at is Some
            && requested(w, now).dismissal.grace_started_at.unwrap().nanos + 600_000_000_000
            == now.nanos,
        w.dismissal.dismissing ==> requested(w, now) == w,
        requested(w, now).dismissal.open_surfaces == w.dismissal.open_surfaces,
        requested(w, now).dismissal.dismissing == w.dismissal.dismissing,
        requested(w, now).workspace == w.workspace,
        requested(w, now).trajectory == w.trajectory,
        requested(w, now).surfaces == w.surfaces,
{
}

// ---------------------------------------------------------------------------
// Regeneration
// ---------------------------------------------------------------------------

/// The document has or had a mission.
pub open spec fn has_mission(d: DocView) -> bool {
    d.mission_history.len() > 0 || exists|k: int|
        #[trigger] is_mission_section(d, k) && d.sections[k].items.len() > 0
}

/// Section `k` is the first that is named for missions.
pub open spec fn is_mission_section(d: DocView, k: int) -> bool {
    &&& 0 <= k < d.sections.len()
    &&& d.sections[k].name == "Mission"@
    &&& forall|j: int| 0 <= j < k ==> (#[trigger] d.sections[j]).name != "Mission"@
}

/// Nobody edits the workspace and nothing regenerates it.
pub open spec fn is_free(w: WorkspaceState) -> bool {
    &&& w.edit_state is Some ==> w.edit_state.unwrap().mode == EditMode::Nav
    &&& !w.missions_pending
    &&& !w.regen.regen_in_flight
}

proof fn lemma_has_mission(d: DocView)
    ensures
        has_mission(d) == !crate::regen::no_mission(d),
{
    let name = "Mission"@;
    lemma_section_from(d, name, 0);
    match section_named(d, name) {
        Some(k) => {
            assert(section_is(d, k, name));
            assert forall|j: int| 0 <= j < k implies (#[trigger] d.sections[j]).name != name by {
                assert(!section_is(d, j, name));
            }
            assert(is_mission_section(d, k));
            assert forall|i: int| #[trigger] is_mission_section(d, i) implies i == k by {
                if i < k {
                    assert(d.sections[i].name != name);
                }
                if k < i {
                    assert(d.sections[k].name != name);
                }
            }
        },
        None => {
            assert forall|i: int| !#[trigger] is_mission_section(d, i) by {
                assert(!section_is(d, i, name));
            }
        },
    }
}

/// Ten events make a regeneration due, and so does any event once five minutes have
/// passed since the last one; without events none is due.
pub proof fn events_make_a_regeneration_due(w: WorkspaceState, now: Moment)
    requires
        w.trajectory is Some,
        has_mission(w.trajectory.unwrap()@),
        is_free(w),
    ensures
        w.regen.events_since_last_regen == 0 ==> !is_due(w, now),
        w.regen.events_since_last_regen >= 10 ==> is_due(w, now),
        0 < w.regen.events_since_last_regen < 10 && w.regen.last_regen_at is None ==> is_due(w, now),
        0 < w.regen.events_since_last_regen < 10 && w.regen.last_regen_at is Some ==> (is_due(
            w,
            now,
        ) <==> now.nanos - w.regen.last_regen_at.unwrap().nanos >= 300_000_000_000),
{
    lemma_has_mission(w.trajectory.unwrap()@);
}

/// A document without any mission is due at once.
pub proof fn a_missing_mission_is_due_at_once(w: WorkspaceState, now: Moment)
    requires
        w.trajectory is Some,
        !has_mission(w.trajectory.unwrap()@),
        is_free(w),
    ensures
        is_due(w, now),
{
    lemma_has_mission(w.trajectory.unwrap()@);
}

/// Nothing is due without a document, while one is written, while a mission waits to
/// move, or while a regeneration runs.
pub proof fn a_busy_workspace_is_not_due(w: WorkspaceState, now: Moment)
    requires
        w.trajectory is None || !is_free(w),
    ensures
        !is_due(w, now),
{
}

/// Every event counts once.
pub proof fn an_event_counts_once(r: RegenSchedulerState)
    ensures
        r.events_since_last_regen < u32::MAX ==> counted(r).events_since_last_regen
            == r.events_since_last_regen + 1,
        r.events_since_last_regen == u32::MAX ==> counted(r).events_since_last_regen == u32::MAX,
        counted(r).last_regen_at == r.last_regen_at,
        counted(r).regen_in_flight == r.regen_in_flight,
{
}

/// A taken result replaces the document, starts the count and the clock anew and ends the
/// run; a refused one only ends the run.
pub proof fn a_result_is_taken_or_refused(w: WorkspaceState, doc: TrajectoryDoc, now: Moment)
    ensures
        regenerated(w, doc, now).trajectory == Some(doc),
        regenerated(w, doc, now).regen.last_regen_at == Some(now),
        regenerated(w, doc, now).regen.events_since_last_regen == 0,
        !regenerated(w, doc, now).regen.regen_in_flight,
        regenerated(w, doc, now).workspace == w.workspace,
        regenerated(w, doc, now).edit_state == w.edit_state,
        refused(w).trajectory == w.trajectory,
        !refused(w).regen.regen_in_flight,
        refused(w).regen.events_since_last_regen == w.regen.events_since_last_regen,
        refused(w).regen.last_regen_at == w.regen.last_regen_at,
{
}

/// The last `n` of a list: all of a shorter one, and of a longer one the entries at its
/// end, in order.
pub proof fn the_latest_entries_are_kept<A>(s: Seq<A>, n: int, i: int)
    requires
        0 <= n,
    ensures
        s.len() <= n ==> last_of(s, n) == s,
        s.len() > n ==> last_of(s, n).len() == n,
        s.len() > n && 0 <= i < n ==> last_of(s, n)[i] == s[s.len() - n + i],
{
}

/// A regeneration starts from the workspace's own name, session and surfaces, the
/// document and the twenty latest events.
pub proof fn a_regeneration_starts_from_the_workspace(
    w: WorkspaceState,
    f: RegenFiles,
    r: RegenInputs,
)
    requires
        gathers(w, f, r),
    ensures
        r.workspace_name@ == w.workspace.name@,
        r.current_trajectory == f.markdown,
        f.events@.len() <= 20 ==> r.recent_events@ == f.events@,
        f.events@.len() > 20 ==> r.recent_events@ == f.events@.skip(f.events@.len() - 20),
        w.session is Some ==> r.session_bullets@ == w.session.unwrap().bullets@,
        w.session is None ==> r.session_bullets@.len() == 0,
        r.tool_call_count == w.tool_call_count,
        r.cmux_surface_order@.len() == w.surfaces@.len(),
        forall|i: int|
            0 <= i < w.surfaces@.len() ==> (#[trigger] r.cmux_surface_order@[i])@
                == w.surfaces@[i].title@,
        r.user_ask == f.user_ask,
{
    let v = views(r.cmux_surface_order@);
    assert(v.len() == r.cmux_surface_order@.len());
    assert forall|i: int| 0 <= i < w.surfaces@.len() implies (
    #[trigger] r.cmux_surface_order@[i])@ == w.surfaces@[i].title@ by {
        assert(v[i] == r.cmux_surface_order@[i]@);
        assert(crate::regen::titles(w.surfaces@)[i] == w.surfaces@[i].title@);
    }
}

/// Learning from a workspace starts from what is known of it, and from its identity where
/// it is no longer known.
pub proof fn learning_starts_from_the_workspace(
    uuid: Seq<char>,
    w: Option<WorkspaceState>,
    f: LearningFiles,
    r: LearningInputs,
)
    requires
        learns(uuid, w, f, r),
    ensures
        r.workspace_uuid@ == uuid,
        w is Some ==> r.workspace_name@ == w.unwrap().workspace.name@,
        w is None ==> r.workspace_name@ == uuid,
        f.project is Some ==> r.project@ == f.project.unwrap()@,
        f.project is None && w is Some ==> r.project@ == w.unwrap().workspace.name@,
        w is Some && w.unwrap().screen_insights.duration is Some ==> r.duration@
            == w.unwrap().screen_insights.duration.unwrap()@,
        w is Some && w.unwrap().screen_insights.duration is None ==> r.duration@ == "unknown"@,
        w is None ==> r.duration@ == "unknown"@,
        f.trajectory is Some ==> r.final_trajectory@ == f.trajectory.unwrap()@,
        f.events is Some ==> r.events_jsonl@ == f.events.unwrap()@,
        w is Some ==> r.surfaces_summary@.len() == w.unwrap().surfaces@.len(),
        w is None ==> r.surfaces_summary@.len() == 0,
{
    assert(views(r.surfaces_summary@).len() == r.surfaces_summary@.len());
}

/// Section `k` is the first with the given name.
pub open spec fn is_first_named(d: DocView, k: int, name: Seq<char>) -> bool {
    &&& 0 <= k < d.sections.len()
    &&& d.sections[k].name == name
    &&& forall|j: int| 0 <= j < k ==> (#[trigger] d.sections[j]).name != name
}

/// The rows under a name are those of the first section that bears it.
pub proof fn rows_are_those_of_the_first_section(d: DocView, name: Seq<char>, k: int)
    ensures
        is_first_named(d, k, name) ==> rows_named(d, name) == d.sections[k].items,
        (forall|j: int| 0 <= j < d.sections.len() ==> (#[trigger] d.sections[j]).name != name)
            ==> rows_named(d, name).len() == 0,
{
    lemma_section_from(d, name, 0);
    match section_named(d, name) {
        Some(i) => {
            assert(section_is(d, i, name));
            if is_first_named(d, k, name) {
                assert(section_is(d, k, name));
                if k < i {
                    assert(!section_is(d, k, name));
                }
            }
        },
        None => {
            if is_first_named(d, k, name) {
                assert(!section_is(d, k, name));
            }
        },
    }
}

proof fn lemma_present(d: DocView, name: Seq<char>, other: Seq<char>)
    ensures
        rows_named(with_present(d, name), other) == rows_named(d, other),
        section_named(with_present(d, name), name) is Some,
        section_named(d, other) is Some ==> section_named(with_present(d, name), other) is Some,
        with_present(d, name).mission_history == d.mission_history,
        d.sections.is_prefix_of(with_present(d, name).sections),
{
    lemma_section_from(d, name, 0);
    lemma_section_from(d, other, 0);
    let b = with_present(d, name);
    if section_named(d, name) is None {
        lemma_section_from(b, name, 0);
        lemma_section_from(b, other, 0);
        let n = d.sections.len() as int;
        assert(section_is(b, n, name));
        assert forall|j: int| 0 <= j < n implies section_is(b, j, other) == section_is(
            d,
            j,
            other,
        ) by {}
        match section_named(d, other) {
            Some(k) => {
                assert(section_is(d, k, other));
                assert(section_is(b, k, other));
                let m = section_named(b, other).unwrap();
                assert(section_is(b, m, other));
                if m < k {
                    assert(section_is(b, m, other) == section_is(d, m, other));
                }
            },
            None => {
                match section_named(b, other) {
                    Some(m) => {
                        assert(section_is(b, m, other));
                        if m < n {
                            assert(section_is(d, m, other));
                        }
                    },
                    None => {},
                }
            },
        }
        assert(d.sections =~= b.sections.subrange(0, n));
    } else {
        assert(d.sections =~= d.sections.subrange(0, d.sections.len() as int));
    }
}

/// Sections that a document lacks are added empty at its end; no row moves or changes.
pub proof fn missing_sections_are_added_empty(d: DocView, name: Seq<char>)
    ensures
        ({
            let c = with_canonical(d);
            &&& d.sections.is_prefix_of(c.sections)
            &&& rows_named(c, name) == rows_named(d, name)
            &&& section_named(c, "Mission"@) is Some
            &&& section_named(c, "Current surfaces"@) is Some
            &&& section_named(c, "Beads"@) is Some
            &&& c.mission_history == d.mission_history
        }),
{
    let a = with_present(d, "Mission"@);
    let b = with_present(a, "Current surfaces"@);
    let c = with_present(b, "Beads"@);
    lemma_present(d, "Mission"@, name);
    lemma_present(a, "Current surfaces"@, name);
    lemma_present(b, "Beads"@, name);
    lemma_present(a, "Current surfaces"@, "Mission"@);
    lemma_present(b, "Beads"@, "Mission"@);
    lemma_present(b, "Beads"@, "Current surfaces"@);
    let n = d.sections.len() as int;
    assert forall|i: int| 0 <= i < n implies d.sections[i] == c.sections[i] by {
        assert(d.sections[i] == a.sections.subrange(0, n)[i]);
        assert(a.sections[i] == b.sections.subrange(0, a.sections.len() as int)[i]);
        assert(b.sections[i] == c.sections.subrange(0, b.sections.len() as int)[i]);
    }
    assert(d.sections =~= c.sections.subrange(0, n));
}

/// A regenerated document brings its own rows, but for the tasks where a tracker keeps
/// them: those stay the workspace's.
pub proof fn a_regenerated_document_brings_its_rows(
    w: WorkspaceState,
    d: DocView,
    name: Seq<char>,
)
    ensures
        w.linear is None && w.beads is None ==> rows_named(fitted_doc(w, d), name) == rows_named(
            d,
            name,
        ),
        name != "Beads"@ ==> rows_named(fitted_doc(w, d), name) == rows_named(d, name),
        (w.linear is Some || w.beads is Some) && w.trajectory is Some ==> rows_named(
            fitted_doc(w, d),
            "Beads"@,
        ) == rows_named(w.trajectory.unwrap()@, "Beads"@),
        fitted_doc(w, d).mission_history == d.mission_history,
{
    missing_sections_are_added_empty(d, name);
    crate::trajectory::replaced_rows_are_found(
        with_canonical(d),
        "Beads"@,
        crate::regen::current_tasks(w),
        name,
    );
}

} // verus!
