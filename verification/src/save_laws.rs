//! What a save records, and what becomes of missions that move.
use crate::agents::{of_kind, AgentProfile, AgentTable};
use crate::app_panes::{
    after_settlement, mission_text, persisted, saved_edits, settled_missions, Settlement,
};
use crate::search::join;
use crate::style::Color;
use crate::surface::{color_of_kind, surface_word, SurfaceKind};
use crate::text::{opt_view, trim, words};
use crate::trajectory::{rows_named, DocView, ItemView};
use crate::trajectory_edit::{
    event_of, event_views, events_of, explanation, ActionView, EditAction, EventKind, SavePlan,
};
use crate::workspace::WorkspaceState;
use crate::wrap::{truncated_after, truncated_within};
use vstd::prelude::*;

verus! {

// ---------------------------------------------------------------------------
// Events
// ---------------------------------------------------------------------------

/// An event tells what was done, in which section, and how the row was before and after,
/// as far as there was one.
pub proof fn an_event_tells_what_was_done(a: ActionView, n: u32)
    ensures
        ({
            let e = event_of(a, n);
            &&& e.snapshot == n
            &&& e.user_explanation is None
            &&& a matches ActionView::Edit { section, before, after } ==> e.kind == EventKind::Edit
                && e.section == section && e.before == Some(before) && e.after == Some(after)
            &&& a matches ActionView::Delete { section, before } ==> e.kind == EventKind::Delete
                && e.section == section && e.before == Some(before) && e.after is None
            &&& a matches ActionView::Check { section, before, after } ==> e.kind
                == EventKind::Check && e.section == section && e.before == Some(before) && e.after
                == Some(after)
            &&& a matches ActionView::Uncheck { section, before, after } ==> e.kind
                == EventKind::Uncheck && e.section == section && e.before == Some(before)
                && e.after == Some(after)
            &&& a matches ActionView::Move { section, before } ==> e.kind == EventKind::Move
                && e.section == section && e.before == Some(before) && e.after is None
        }),
{
}

/// The context explains the edit when it is not blank, without its outer blanks.
pub proof fn the_context_explains_the_edit(context: Seq<char>)
    ensures
        trim(context).len() > 0 ==> explanation(context) == Some(trim(context)),
        trim(context).len() == 0 ==> explanation(context) is None,
{
}

/// A save records every action in order, and the explanation with the last one alone.
pub proof fn a_save_records_every_action(
    actions: Seq<ActionView>,
    n: u32,
    why: Option<Seq<char>>,
    k: int,
)
    requires
        0 <= k < actions.len(),
    ensures
        ({
            let e = events_of(actions, n, why);
            &&& e.len() == actions.len()
            &&& e[k].kind == event_of(actions[k], n).kind
            &&& e[k].section == event_of(actions[k], n).section
            &&& e[k].before == event_of(actions[k], n).before
            &&& e[k].after == event_of(actions[k], n).after
            &&& e[k].snapshot == n
            &&& k == actions.len() - 1 ==> e[k].user_explanation == why
            &&& k < actions.len() - 1 ==> e[k].user_explanation is None
        }),
{
}

/// A save takes the number after the highest one, writes it into the document and changes
/// nothing else of it.
pub proof fn a_save_takes_the_next_number(
    w: WorkspaceState,
    actions: Seq<EditAction>,
    highest: u32,
    plan: SavePlan,
    v: WorkspaceState,
)
    requires
        w.trajectory is Some,
        w.edit_state is Some,
        saved_edits(w, actions, highest, plan, v),
    ensures
        plan.snapshot == highest + 1,
        v.trajectory is Some,
        v.trajectory.unwrap()@.snapshot == Some(plan.snapshot),
        v.trajectory.unwrap()@.sections == w.trajectory.unwrap()@.sections,
        v.trajectory.unwrap()@.mission_history == w.trajectory.unwrap()@.mission_history,
        v.edit_state == w.edit_state,
        event_views(plan.events@).len() == actions.len(),
        opt_view(plan.user_why) == explanation(w.edit_state.unwrap().input_ctx_buffer@),
{
}

// ---------------------------------------------------------------------------
// Missions
// ---------------------------------------------------------------------------

/// The multiplexer is told the active missions, one to a line.
pub proof fn missions_are_told_line_by_line(d: DocView)
    ensures
        mission_text(d) == join(
            rows_named(d, "Mission"@).map_values(|i: ItemView| i.text),
            "\n"@,
        ),
{
    assert(rows_named(d, "Mission"@).map_values(|i: ItemView| i.text)
        =~= crate::app_panes::row_texts(rows_named(d, "Mission"@)));
}

/// A settlement takes effect when something moves and it was saved: the document and the
/// editor become what it says. In any other case nothing changes.
pub proof fn a_saved_settlement_takes_effect(w: WorkspaceState, s: Settlement)
    requires
        w.trajectory is Some,
        w.edit_state is Some,
    ensures
        s.saved && s.actions@.len() > 0 ==> after_settlement(w, Some(s)).trajectory == Some(s.doc)
            && after_settlement(w, Some(s)).edit_state == Some(s.state) && after_settlement(
            w,
            Some(s),
        ).missions_pending == s.pending,
        !s.saved || s.actions@.len() == 0 ==> after_settlement(w, Some(s)) == w,
        after_settlement(w, None) == w,
        after_settlement(w, Some(s)).workspace == w.workspace,
        after_settlement(w, Some(s)).surfaces == w.surfaces,
{
}

/// The missions of every workspace whose settlement took effect are told, with its
/// reference, in the order of the workspaces; of others nothing is.
pub proof fn settled_missions_are_told(
    s: Seq<WorkspaceState>,
    steps: Seq<Option<Settlement>>,
    n: int,
    i: int,
)
    requires
        0 <= i < n <= s.len(),
    ensures
        ({
            let at = settled_missions(s, steps, i).len() as int;
            let all = settled_missions(s, steps, n);
            let done = i < steps.len() && steps[i] is Some && s[i].trajectory is Some
                && s[i].edit_state is Some && steps[i].unwrap().actions@.len() > 0
                && steps[i].unwrap().saved;
            &&& done ==> at < all.len() && all[at] == (
                s[i].workspace.ref_id@,
                mission_text(steps[i].unwrap().doc@),
            )
            &&& settled_missions(s, steps, i + 1).len() == at + (if done {
                1int
            } else {
                0int
            })
            &&& all.len() >= settled_missions(s, steps, i + 1).len()
        }),
    decreases n,
{
    if i < n - 1 {
        settled_missions_are_told(s, steps, n - 1, i);
    }
}

/// Without a mission that waits, the document is written as it is shown.
pub proof fn a_settled_document_is_written(w: WorkspaceState, stable: Option<DocView>)
    requires
        !w.missions_pending,
    ensures
        w.trajectory is Some ==> persisted(w, stable) == Some(w.trajectory.unwrap()@),
        w.trajectory is None ==> persisted(w, stable) is None,
{
}

// ---------------------------------------------------------------------------
// Names and signs
// ---------------------------------------------------------------------------

proof fn lemma_of_kind(s: Seq<AgentProfile>, kind: SurfaceKind, i: int, k: int)
    requires
        0 <= i,
    ensures
        i <= k < s.len() && s[k].kind == kind && (forall|j: int|
            i <= j < k ==> (#[trigger] s[j]).kind != kind) ==> of_kind(s, kind, i) == Some(k),
        (forall|j: int| i <= j < s.len() ==> (#[trigger] s[j]).kind != kind) ==> of_kind(
            s,
            kind,
            i,
        ) is None,
    decreases s.len() - i,
{
    if i < s.len() {
        lemma_of_kind(s, kind, i + 1, k);
    }
}

/// A kind is labelled by its word, and an agent's by the name of the first profile of that
/// kind; titles come from the same profile.
pub proof fn kinds_are_labelled(agents: AgentTable, kind: SurfaceKind, k: int)
    ensures
        agents.label(SurfaceKind::Shell) == "shell"@,
        agents.label(SurfaceKind::Remote) == "remote"@,
        agents.label(SurfaceKind::Unknown) == "unknown"@,
        agents.label(SurfaceKind::OtherAgent) == "agent"@,
        (kind == SurfaceKind::Claude || kind == SurfaceKind::Codex) && 0 <= k
            < agents.agents@.len() && agents.agents@[k].kind == kind && (forall|j: int|
            0 <= j < k ==> (#[trigger] agents.agents@[j]).kind != kind) ==> agents.label(kind)
            == agents.agents@[k].name@ && agents.title(kind) == agents.agents@[k].title@,
{
    lemma_of_kind(agents.agents@, kind, 0, k);
}

/// Every kind has a sign and a color of its own.
pub proof fn kinds_have_their_own_color(a: SurfaceKind, b: SurfaceKind)
    requires
        a != b,
    ensures
        a.glyph_spec() != b.glyph_spec(),
        color_of_kind(a) != color_of_kind(b),
        SurfaceKind::Shell.glyph_spec() == '$',
        SurfaceKind::Remote.glyph_spec() == '⇅',
        SurfaceKind::Unknown.glyph_spec() == '·',
        SurfaceKind::OtherAgent.glyph_spec() == '◆',
        SurfaceKind::Codex.glyph_spec() == '▲',
        SurfaceKind::Claude.glyph_spec() == '✻',
        color_of_kind(SurfaceKind::Unknown) == Color::DarkGray,
        color_of_kind(SurfaceKind::Shell) == Color::Gray,
{
}

proof fn lemma_surface_word(ws: Seq<Seq<char>>, i: int, k: int)
    requires
        0 <= i,
    ensures
        i <= k < ws.len() && names_a_surface(ws[k]) && (forall|j: int|
            i <= j < k ==> !names_a_surface(#[trigger] ws[j])) ==> surface_word(ws, i) == Some(
            ws[k],
        ),
        (forall|j: int| i <= j < ws.len() ==> !names_a_surface(#[trigger] ws[j])) ==> surface_word(
            ws,
            i,
        ) is None,
    decreases ws.len() - i,
{
    reveal_strlit("surface:");
    if i < ws.len() {
        lemma_surface_word(ws, i + 1, k);
    }
}

/// The word is a surface's reference.
pub open spec fn names_a_surface(w: Seq<char>) -> bool {
    "surface:"@.is_prefix_of(w) && w.len() > "surface:"@.len()
}

/// The new surface is the first reference in the multiplexer's answer.
pub proof fn the_answer_names_the_new_surface(output: Seq<char>, k: int)
    ensures
        0 <= k < words(output).len() && names_a_surface(words(output)[k]) && (forall|j: int|
            0 <= j < k ==> !names_a_surface(#[trigger] words(output)[j])) ==> surface_word(
            words(output),
            0,
        ) == Some(words(output)[k]),
        (forall|j: int| 0 <= j < words(output).len() ==> !names_a_surface(
            #[trigger] words(output)[j],
        )) ==> surface_word(words(output), 0) is None,
{
    lemma_surface_word(words(output), 0, k);
}

// ---------------------------------------------------------------------------
// Cutting
// ---------------------------------------------------------------------------

/// A text that fits is left alone; a longer one is cut and says so, keeping the ellipsis
/// behind the limit or within it.
pub proof fn a_long_text_is_cut(s: Seq<char>, max: int)
    requires
        0 < max,
    ensures
        s.len() <= max ==> truncated_after(s, max) == s && truncated_within(s, max) == s,
        s.len() > max ==> truncated_after(s, max) == s.take(max) + seq!['…'],
        s.len() > max ==> truncated_within(s, max) == s.take(max - 1) + seq!['…'],
        s.len() > max ==> truncated_within(s, max).len() == max,
{
    if s.len() > max {
        assert(s.take(max).push('…') =~= s.take(max) + seq!['…']);
        assert(s.take(max - 1).push('…') =~= s.take(max - 1) + seq!['…']);
    }
}

} // verus!
