//! What the keys of the modals do, and what the modals show.
use crate::agents::AgentTable;
use crate::dispatch_modal::{
    after_key, existing, fresh_options, offer, offered, option_lines, pick_agent_lines,
    pick_surface_lines, title_of, ModalView, OptionView, OutcomeView,
};
use crate::handoff::{HandoffFailure, HandoffLocator, HandoffStage, HandoffUpdateKind};
use crate::handoff_modal::{modal_lines, HandoffModal, HandoffView};
use crate::keys::KeyCode;
use crate::numeral::decimal;
use crate::style::Color;
use crate::surface::{SurfaceInfo, SurfaceKind};
use vstd::prelude::*;

verus! {

// ---------------------------------------------------------------------------
// Dispatch: which surface a digit names
// ---------------------------------------------------------------------------

/// The surface has a terminal.
pub open spec fn has_tty(s: SurfaceInfo) -> bool {
    s.tty is Some && s.tty.unwrap()@.len() > 0
}

/// How many of the first `n` surfaces have a terminal.
pub open spec fn terminals(surfaces: Seq<SurfaceInfo>, n: int) -> int {
    surfaces.take(n).filter(|s: SurfaceInfo| has_tty(s)).len() as int
}

proof fn lemma_terminals(surfaces: Seq<SurfaceInfo>, n: int)
    requires
        0 < n <= surfaces.len(),
    ensures
        terminals(surfaces, n) == terminals(surfaces, n - 1) + (if has_tty(surfaces[n - 1]) {
            1int
        } else {
            0int
        }),
{
    reveal(Seq::filter);
    assert(surfaces.take(n).drop_last() =~= surfaces.take(n - 1));
    assert(surfaces.take(n).last() == surfaces[n - 1]);
}

proof fn lemma_no_terminals(surfaces: Seq<SurfaceInfo>)
    ensures
        terminals(surfaces, 0) == 0,
{
    reveal(Seq::filter);
    assert(surfaces.take(0).len() == 0);
}

proof fn lemma_offer_place(surfaces: Seq<SurfaceInfo>, n: int, i: int)
    requires
        0 <= n <= surfaces.len(),
    ensures
        offered(surfaces, n).len() == terminals(surfaces, n),
        0 <= i < n && has_tty(surfaces[i]) ==> 0 <= terminals(surfaces, i) < offered(
            surfaces,
            n,
        ).len() && offered(surfaces, n)[terminals(surfaces, i)] == offer(surfaces[i]),
        forall|k: int| 0 <= k < offered(surfaces, n).len() ==> (#[trigger] offered(surfaces, n)[k])
            is Existing,
    decreases n,
{
    if n == 0 {
        lemma_no_terminals(surfaces);
    } else {
        lemma_terminals(surfaces, n);
        lemma_offer_place(surfaces, n - 1, i);
        if i == n - 1 {
            lemma_offer_place(surfaces, n - 1, 0);
        }
    }
}

proof fn lemma_all_existing(options: Seq<OptionView>, n: int, k: int)
    requires
        0 <= n <= options.len(),
        forall|j: int| 0 <= j < n ==> (#[trigger] options[j]) is Existing,
    ensures
        existing(options, n).len() == n,
        0 <= k < n ==> existing(options, n)[k] == (
            options[k]->Existing_surface_ref,
            options[k]->Existing_kind,
        ),
    decreases n,
{
    if n > 0 {
        lemma_all_existing(options, n - 1, k);
    }
}

proof fn lemma_fresh(surfaces: Seq<SurfaceInfo>, i: int)
    requires
        0 <= i < surfaces.len(),
        has_tty(surfaces[i]),
        terminals(surfaces, i) < 9,
    ensures
        ({
            let o = fresh_options(surfaces);
            let k = terminals(surfaces, i);
            let n = o.len() - 1;
            &&& 0 <= k < n
            &&& o[k] == offer(surfaces[i])
            &&& o[n] is NewSurface
            &&& forall|j: int| 0 <= j < n ==> (#[trigger] o[j]) is Existing
            &&& existing(o, o.len() as int).len() == n
            &&& existing(o, o.len() as int)[k] == (surfaces[i].ref_id@, surfaces[i].kind)
        }),
{
    let all = offered(surfaces, surfaces.len() as int);
    let o = fresh_options(surfaces);
    let n = o.len() - 1;
    let k = terminals(surfaces, i);
    lemma_offer_place(surfaces, surfaces.len() as int, i);
    assert forall|j: int| 0 <= j < n implies (#[trigger] o[j]) is Existing by {
        assert(o[j] == all[j]);
    }
    assert(o[k] == all[k]);
    lemma_all_existing(o, n, k);
    assert(existing(o, o.len() as int) == existing(o, n));
}

/// In a fresh modal the digits number the terminals of the workspace in order: the first
/// is `1`, surfaces without a terminal take no number, and the digit sends the goal to
/// that very surface.
pub proof fn a_digit_sends_the_goal_to_its_terminal(
    m: ModalView,
    surfaces: Seq<SurfaceInfo>,
    i: int,
    digit: char,
)
    requires
        m.view is PickSurface,
        m.options == fresh_options(surfaces),
        0 <= i < surfaces.len(),
        has_tty(surfaces[i]),
        terminals(surfaces, i) < 9,
        digit as int == '1' as int + terminals(surfaces, i),
    ensures
        after_key(m, KeyCode::Char(digit)).1 == (OutcomeView::SelectExisting {
            surface_ref: surfaces[i].ref_id@,
            kind: surfaces[i].kind,
        }),
        after_key(m, KeyCode::Char(digit)).0.view == m.view,
{
    lemma_fresh(surfaces, i);
}

/// A digit without a terminal does nothing.
pub proof fn a_digit_without_a_terminal_does_nothing(
    m: ModalView,
    surfaces: Seq<SurfaceInfo>,
    digit: char,
)
    requires
        m.view is PickSurface,
        m.options == fresh_options(surfaces),
        '1' <= digit <= '9',
        digit as int - '1' as int >= terminals(surfaces, surfaces.len() as int),
    ensures
        after_key(m, KeyCode::Char(digit)) == (ModalView { error: None, ..m }, OutcomeView::Handled),
{
    let o = m.options;
    let n = o.len() - 1;
    let all = offered(surfaces, surfaces.len() as int);
    lemma_offer_place(surfaces, surfaces.len() as int, 0);
    assert forall|j: int| 0 <= j < n implies (#[trigger] o[j]) is Existing by {
        assert(o[j] == all[j]);
    }
    lemma_all_existing(o, n, 0);
    assert(existing(o, o.len() as int) == existing(o, n));
}

/// `n` leads to the choice of an agent; there `c` and `x` ask for a new surface with that
/// agent, and escape leads back. Other keys do nothing, and any key takes the error away.
pub proof fn letters_choose_a_new_surface(m: ModalView, code: KeyCode)
    ensures
        ({
            let after = after_key(m, code);
            &&& m.view is PickSurface && (code == KeyCode::Char('n') || code == KeyCode::Char('N'))
                ==> after.0.view is PickAgent && after.1 is Handled
            &&& m.view is PickSurface && code == KeyCode::Esc ==> after.1 is Cancel
            &&& m.view is PickSurface && code != KeyCode::Char('n') && code != KeyCode::Char('N')
                ==> after.0.view == m.view
            &&& m.view is PickAgent && (code == KeyCode::Char('c') || code == KeyCode::Char('C'))
                ==> after.1 == (OutcomeView::NewSurface { kind: SurfaceKind::Claude })
            &&& m.view is PickAgent && (code == KeyCode::Char('x') || code == KeyCode::Char('X'))
                ==> after.1 == (OutcomeView::NewSurface { kind: SurfaceKind::Codex })
            &&& m.view is PickAgent && code == KeyCode::Esc ==> after.0.view is PickSurface
                && after.1 is Handled
            &&& m.view is PickAgent && code != KeyCode::Esc ==> after.0.view == m.view
            &&& m.view is PickAgent && code != KeyCode::Char('c') && code != KeyCode::Char('C')
                && code != KeyCode::Char('x') && code != KeyCode::Char('X') ==> after.1 is Handled
            &&& m.view is PickSurface && after.1 is NewSurface ==> false
            &&& m.view is PickSurface && (match code {
                KeyCode::Char(c) => !('1' <= c <= '9'),
                KeyCode::Esc => false,
                _ => true,
            }) ==> after.1 is Handled
            &&& after.0.error is None
        }),
{
}

proof fn lemma_option_lines(agents: AgentTable, options: Seq<OptionView>, n: int, k: int)
    requires
        0 <= k < n <= options.len(),
    ensures
        option_lines(agents, options, n).len() == n,
        option_lines(agents, options, n)[k] == option_lines(agents, options, k + 1)[k],
        option_lines(agents, options, k + 1).len() == k + 1,
    decreases n,
{
    if n > 1 && k < n - 1 {
        lemma_option_lines(agents, options, n - 1, k);
    } else if n > 1 {
        lemma_option_lines(agents, options, n - 1, 0);
    } else {
        assert(option_lines(agents, options, 0).len() == 0);
    }
}

/// The picker shows each terminal on offer behind the very digit that chooses it, with its
/// sign and reference; below stand `n`, escape and the error if there is one.
pub proof fn the_picker_shows_the_digits(
    agents: AgentTable,
    m: ModalView,
    surfaces: Seq<SurfaceInfo>,
    i: int,
)
    requires
        m.options == fresh_options(surfaces),
        0 <= i < surfaces.len(),
        has_tty(surfaces[i]),
        terminals(surfaces, i) < 9,
    ensures
        ({
            let shown = pick_surface_lines(agents, m);
            let k = terminals(surfaces, i);
            let n = m.options.len();
            &&& 0 <= k < n - 1
            &&& shown[k][0].text == "  ["@ + decimal((k + 1) as nat) + "] "@
            &&& shown[k][1].text == seq![surfaces[i].kind.glyph_spec()] + " "@
            &&& shown[k][4].text == surfaces[i].ref_id@
            &&& surfaces[i].title@.len() <= 24 ==> surfaces[i].title@.is_prefix_of(
                shown[k][3].text,
            )
            &&& shown[n - 1][0].text == "  [n] "@
            &&& shown[n as int][0].text == "  [Esc] "@ && shown[n as int][1].text == "cancel"@
            &&& m.error is Some ==> shown.len() == n + 2 && shown[n as int + 1][0].text == "  error: "@
                + m.error.unwrap()
            &&& m.error is None ==> shown.len() == n + 1
        }),
{
    let o = m.options;
    let n = o.len() as int;
    let k = terminals(surfaces, i);
    lemma_fresh(surfaces, i);
    lemma_option_lines(agents, o, n, k);
    lemma_option_lines(agents, o, n, n - 1);
    lemma_all_existing(o, k + 1, k);
    let shown = pick_surface_lines(agents, m);
    assert(shown[k] == option_lines(agents, o, n)[k]);
    assert(shown[n - 1] == option_lines(agents, o, n)[n - 1]);
    let t = surfaces[i].title@;
    if t.len() <= 24 {
        assert(shown[k][3].text.subrange(0, t.len() as int) =~= t);
    }
}

/// The agent picker names the two agents behind the letters that choose them.
pub proof fn the_agent_picker_shows_the_letters(agents: AgentTable)
    ensures
        ({
            let shown = pick_agent_lines(agents);
            &&& shown[0][1].text == "[c] "@
            &&& shown[0][2].text == agents.title(SurfaceKind::Claude) + "  "@
            &&& shown[0][3].text == "[x] "@
            &&& shown[0][4].text == agents.title(SurfaceKind::Codex) + "  "@
            &&& shown[1][0].text == "  [Esc] "@ && shown[1][1].text == "back"@
        }),
{
}

/// The title quotes the goal, cut to sixty characters.
pub proof fn the_title_quotes_the_goal(m: ModalView)
    ensures
        m.goal_text.len() <= 60 ==> title_of(m) == " Dispatch: \""@ + m.goal_text + "\" "@,
        m.goal_text.len() > 60 ==> title_of(m) == " Dispatch: \""@ + (m.goal_text.take(59)
            + seq!['…']) + "\" "@,
{
    if m.goal_text.len() > 60 {
        assert(m.goal_text.take(59).push('…') =~= m.goal_text.take(59) + seq!['…']);
    }
}

// ---------------------------------------------------------------------------
// Handoff
// ---------------------------------------------------------------------------

/// But for the two cursors the modals are the same.
pub open spec fn same_but_cursors(a: HandoffModal, b: HandoffModal) -> bool {
    &&& b.workspace_uuid == a.workspace_uuid
    &&& b.surface_label == a.surface_label
    &&& b.generation == a.generation
    &&& b.view == a.view
    &&& b.source == a.source
    &&& b.peers == a.peers
    &&& b.profiles == a.profiles
    &&& b.last_plan == a.last_plan
}

/// Down and `j` go to the next device, up and `k` to the one before, around the ends.
pub proof fn up_and_down_choose_the_device(m: HandoffModal, code: KeyCode)
    requires
        m.well_formed(),
        m.view is PickTarget,
        m.peers@.len() > 0,
    ensures
        ({
            let after = m.after_key(code);
            let i = m.peer_index as int;
            let n = m.peers@.len() as int;
            &&& code == KeyCode::Down || code == KeyCode::Char('j') ==> same_but_cursors(m, after)
                && after.profile_index == m.profile_index && (i + 1 < n ==> after.peer_index == i
                + 1) && (i + 1 == n ==> after.peer_index == 0)
            &&& code == KeyCode::Up || code == KeyCode::Char('k') ==> same_but_cursors(m, after)
                && after.profile_index == m.profile_index && (i > 0 ==> after.peer_index == i - 1)
                && (i == 0 ==> after.peer_index == n - 1)
        }),
{
    assert(m.peers@.len() == m.peers.len());
}

/// Right, `l` and `p` go to the next profile, left and `h` to the one before, around the
/// ends.
pub proof fn left_and_right_choose_the_profile(m: HandoffModal, code: KeyCode)
    requires
        m.well_formed(),
        m.view is PickTarget,
        m.profiles@.len() > 0,
    ensures
        ({
            let after = m.after_key(code);
            let i = m.profile_index as int;
            let n = m.profiles@.len() as int;
            &&& code == KeyCode::Right || code == KeyCode::Char('l') || code == KeyCode::Char('p')
                ==> same_but_cursors(m, after) && after.peer_index == m.peer_index && (i + 1 < n
                ==> after.profile_index == i + 1) && (i + 1 == n ==> after.profile_index == 0)
            &&& code == KeyCode::Left || code == KeyCode::Char('h') ==> same_but_cursors(m, after)
                && after.peer_index == m.peer_index && (i > 0 ==> after.profile_index == i - 1)
                && (i == 0 ==> after.profile_index == n - 1)
        }),
{
    assert(m.profiles@.len() == m.profiles.len());
}

/// A digit chooses its device and asks for confirmation; enter asks for confirmation of
/// the device and profile under the cursors. Neither starts anything, and escape cancels.
pub proof fn a_target_is_confirmed_first(m: HandoffModal, code: KeyCode, k: int)
    requires
        m.well_formed(),
        m.view is PickTarget,
    ensures
        ({
            let after = m.after_key(code);
            &&& (0 <= k < 9 && k < m.peers@.len() && (match code {
                KeyCode::Char(c) => c as int == '1' as int + k,
                _ => false,
            })) ==> after.peer_index == k && after.view is Confirm && after.source == m.source
                && after.profile_index == m.profile_index
            &&& code == KeyCode::Enter && m.source is Some && m.peers@.len() > 0
                && m.profiles@.len() > 0 ==> after.view is Confirm && after.peer_index
                == m.peer_index && after.profile_index == m.profile_index && after.source
                == m.source
            &&& code == KeyCode::Enter && (m.source is None || m.peers@.len() == 0
                || m.profiles@.len() == 0) ==> after == m
            &&& code == KeyCode::Esc ==> m.key_outcome(code) is Cancel && after == m
            &&& code != KeyCode::Esc ==> m.key_outcome(code) is Handled
        }),
{
}

/// A confirmation starts the handoff of the modal's own session to the device and the
/// profile under the cursors; escape goes back to the choice, and other keys do nothing.
pub proof fn a_confirmation_starts_what_is_shown(m: HandoffModal, code: KeyCode)
    requires
        m.well_formed(),
        m.view is Confirm,
    ensures
        ({
            let outcome = m.key_outcome(code);
            let yes = code == KeyCode::Enter || code == KeyCode::Char('y') || code == KeyCode::Char(
                'Y',
            );
            &&& yes && m.source is Some && m.peers@.len() > 0 && m.profiles@.len() > 0 ==> {
                &&& outcome is Start
                &&& outcome->Start_0.source == m.source.unwrap()
                &&& outcome->Start_0.target.peer_id == m.peers@[m.peer_index as int]
                &&& outcome->Start_0.target.profile == m.profiles@[m.profile_index as int]
            }
            &&& !yes ==> outcome is Handled
            &&& code == KeyCode::Esc ==> m.after_key(code).view is PickTarget
                && m.after_key(code).peer_index == m.peer_index && m.after_key(code).source
                == m.source
            &&& code != KeyCode::Esc ==> m.after_key(code) == m
        }),
{
}

/// What is over is closed by enter or escape; a failure that allows it is tried again, with
/// the plan that failed, by `r`.
pub proof fn an_ended_handoff_is_closed_or_retried(m: HandoffModal, code: KeyCode)
    requires
        m.view is Success || m.view is Failure || m.view is Unavailable,
    ensures
        ({
            let outcome = m.key_outcome(code);
            let again = code == KeyCode::Char('r') || code == KeyCode::Char('R');
            &&& m.after_key(code) == m
            &&& code == KeyCode::Enter || code == KeyCode::Esc ==> outcome is Cancel
            &&& again && m.view is Failure && m.view->Failure_0.retryable && m.last_plan is Some
                ==> outcome is Start && *outcome->Start_0 == m.last_plan.unwrap()
            &&& again && !(m.view is Failure && m.view->Failure_0.retryable) ==> outcome is Handled
            &&& !again && code != KeyCode::Enter && code != KeyCode::Esc ==> outcome is Handled
        }),
{
}

/// The target picker lists the devices by number, the chosen one in bold, each with the
/// chosen profile.
pub proof fn the_target_picker_lists_the_devices(m: HandoffModal, i: int)
    requires
        m.well_formed(),
        m.view is PickTarget,
        m.profiles@.len() > 0,
        0 <= i < m.peers@.len(),
        i < 9,
    ensures
        ({
            let l = modal_lines(m)[2 + i];
            let profile = m.profiles@[m.profile_index as int]@;
            &&& l[0].text == "  ["@ + decimal((i + 1) as nat) + "] "@
            &&& l[1].text == m.peers@[i]@ + " · "@ + profile
            &&& i == m.peer_index ==> l[1].style.bold && l[1].style.fg == Some(Color::White)
            &&& i != m.peer_index ==> !l[1].style.bold && l[1].style.fg == Some(Color::Gray)
            &&& modal_lines(m)[1][0].text == "  target profile: "@ + profile
                + "  [h/l or p to change]"@
        }),
{
}

/// The confirmation names the device and the profile that would be used.
pub proof fn the_confirmation_names_the_target(m: HandoffModal)
    requires
        m.well_formed(),
        m.view is Confirm,
        m.peers@.len() > 0,
        m.profiles@.len() > 0,
    ensures
        modal_lines(m)[1][0].text == "  move to "@ + m.peers@[m.peer_index as int]@ + " · "@
            + m.profiles@[m.profile_index as int]@ + "?"@,
        modal_lines(m)[3][0].text == "  "@ + "Enter/y start · Esc back"@,
{
}

/// A session's address as it is shown.
pub open spec fn address(l: HandoffLocator) -> Seq<char> {
    l.device_id@ + "/"@ + l.profile_scope@ + "/"@ + l.session_id@
}

/// A failure tells what went wrong and that the source is still live, and offers another
/// try exactly when one is allowed.
pub proof fn a_failure_tells_what_is_live(m: HandoffModal, f: HandoffFailure)
    requires
        m.view == HandoffView::Failure(f),
    ensures
        ({
            let shown = modal_lines(m);
            &&& shown[1][0].text == "  ✗ "@ + f.message@
            &&& shown[2][0].text == "  source: "@ + address(f.source_locator) + " (still live)"@
            &&& f.target_locator is Some ==> shown[3][0].text == "  target: "@ + address(
                f.target_locator.unwrap(),
            )
            &&& f.retryable ==> shown.last()[0].text == "  "@ + "r retry · Enter/Esc close"@
            &&& !f.retryable ==> shown.last()[0].text == "  "@ + "Enter/Esc close"@
            &&& f.target_uncertain ==> shown[shown.len() - 2][0].text
                == "  ⚠ duplicate-live possible: target existence is uncertain"@
            &&& f.duplicate_live && !f.target_uncertain ==> shown[shown.len() - 2][0].text
                == "  ⚠ duplicate-live: target exists and source was preserved"@
            &&& shown.len() == 4 + (if f.target_locator is Some {
                1int
            } else {
                0int
            }) + (if f.handoff_id is Some {
                1int
            } else {
                0int
            }) + (if f.target_uncertain || f.duplicate_live {
                1int
            } else {
                0int
            })
        }),
{
}

/// A success names the new session as the target and the old one as retired.
pub proof fn a_success_names_both_ends(m: HandoffModal)
    requires
        m.view is Success,
    ensures
        modal_lines(m)[2][0].text == "  target: "@ + address(m.view->Success_0.target_locator),
        modal_lines(m)[3][0].text == "  source: "@ + address(m.view->Success_0.source_locator)
            + " (retired)"@,
{
}

/// While a handoff runs its stage is shown, and that the source still runs.
pub proof fn a_running_handoff_shows_its_stage(m: HandoffModal)
    requires
        m.view is Running,
    ensures
        m.view->Running_0 == HandoffStage::Preparing ==> modal_lines(m)[1][0].text == "  … "@
            + "preparing"@,
        m.view->Running_0 == HandoffStage::Launching ==> modal_lines(m)[1][0].text == "  … "@
            + "launching"@,
        m.view->Running_0 is Named ==> modal_lines(m)[1][0].text == "  … "@
            + m.view->Running_0->Named_0@,
        modal_lines(m)[2][0].text == "  Source is still running."@,
{
}

/// The modals are as high as what they show.
pub proof fn modals_are_as_high_as_their_content(m: ModalView, surfaces: Seq<SurfaceInfo>)
    requires
        m.options == fresh_options(surfaces),
    ensures
        m.view is PickSurface && terminals(surfaces, surfaces.len() as int) <= 9
            ==> crate::dispatch_modal::height_of(m) == terminals(surfaces, surfaces.len() as int)
            + 4,
        m.view is PickSurface && terminals(surfaces, surfaces.len() as int) > 9
            ==> crate::dispatch_modal::height_of(m) == 13,
        m.view is PickAgent ==> crate::dispatch_modal::height_of(m) == 4,
{
    let o = m.options;
    let n = o.len() - 1;
    let all = offered(surfaces, surfaces.len() as int);
    lemma_offer_place(surfaces, surfaces.len() as int, 0);
    assert forall|j: int| 0 <= j < n implies (#[trigger] o[j]) is Existing by {
        assert(o[j] == all[j]);
    }
    lemma_all_existing(o, n, 0);
    assert(existing(o, o.len() as int) == existing(o, n));
}

/// The handoff modal has room for its view: more for a failure than for a success, and
/// for the choice a line for each of up to seven devices.
pub proof fn the_handoff_modal_has_room(m: HandoffModal)
    ensures
        m.view is Failure ==> crate::handoff_modal::height_of(m) == 11,
        m.view is Success ==> crate::handoff_modal::height_of(m) == 9,
        m.view is PickTarget && 1 <= m.peers@.len() <= 7 ==> crate::handoff_modal::height_of(m)
            == m.peers@.len() + 7,
        m.view is PickTarget && m.peers@.len() > 7 ==> crate::handoff_modal::height_of(m) == 14,
        m.view is PickTarget && m.peers@.len() == 0 ==> crate::handoff_modal::height_of(m) == 8,
{
}

/// News of another handoff changes nothing. News of the running one shows its stage, its
/// success or its failure, and changes nothing but the view.
pub proof fn news_of_the_running_handoff_is_shown(
    m: HandoffModal,
    generation: u64,
    kind: HandoffUpdateKind,
)
    ensures
        generation != m.generation ==> m.told(generation, kind) == m,
        m.told(generation, kind) == (HandoffModal { view: m.told(generation, kind).view, ..m }),
        generation == m.generation && kind is Progress ==> m.told(generation, kind).view
            == HandoffView::Running(kind->Progress_0),
        generation == m.generation && kind is Finished && kind->Finished_0 is Ok ==> m.told(
            generation,
            kind,
        ).view == HandoffView::Success(kind->Finished_0->Ok_0),
        generation == m.generation && kind is Finished && kind->Finished_0 is Err ==> m.told(
            generation,
            kind,
        ).view == HandoffView::Failure(kind->Finished_0->Err_0),
{
}

/// Without devices or profiles the modal says so.
pub proof fn missing_targets_are_told(m: HandoffModal)
    requires
        m.well_formed(),
    ensures
        m.view is PickTarget && m.profiles@.len() == 0 ==> modal_lines(m)[1][0].text
            == "  target profile: "@ + "unavailable"@ + "  [h/l or p to change]"@,
        m.view is PickTarget && m.peers@.len() == 0 ==> modal_lines(m).len() == 3,
        m.view is Confirm && m.peers@.len() == 0 && m.profiles@.len() == 0 ==> modal_lines(
            m,
        )[1][0].text == "  move to "@ + "?"@ + " · "@ + "?"@ + "?"@,
{
}

} // verus!
