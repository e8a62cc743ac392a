//! The modal that sends a goal to a terminal surface.
//!
//! It offers the workspace's terminal surfaces under the digits 1 to 9, `n`
//! for a new surface with an agent in it, and Esc to leave. It does no I/O:
//! the caller acts on the outcome of each key.
use crate::agents::AgentTable;
use crate::keys::{KeyCode, KeyEvent};
use crate::numeral::{decimal, decimal_string};
use crate::style::{
    fg, label, line1, line2, line_views, no_lines, push_line, push_span, sp, span, Color, Line,
    SpanView, Style,
};
use crate::surface::{color_of_kind, kind_color, SurfaceInfo, SurfaceKind};
use crate::text::{concat2, concat3, opt_view};
use crate::trajectory_view::{spaces, spaces_string};
use crate::wrap::{truncate, truncated_within};
use vstd::prelude::*;

verus! {

/// The digits that name a surface, and so the most terminals that are offered.
pub const MAX_SURFACES: usize = 9;

/// A single option in the surface picker.
#[derive(Debug, Clone, PartialEq, Eq)]
pub enum DispatchOption {
    /// Dispatch to an existing surface.
    Existing { surface_ref: String, kind: SurfaceKind, label: String },
    /// Spawn a new surface and seed it with an agent.
    NewSurface,
}

/// What an option says.
#[verifier::ext_equal]
pub enum OptionView {
    Existing { surface_ref: Seq<char>, kind: SurfaceKind, label: Seq<char> },
    NewSurface,
}

impl View for DispatchOption {
    type V = OptionView;

    open spec fn view(&self) -> OptionView {
        match *self {
            DispatchOption::Existing { surface_ref, kind, label } => OptionView::Existing {
                surface_ref: surface_ref@,
                kind,
                label: label@,
            },
            DispatchOption::NewSurface => OptionView::NewSurface,
        }
    }
}

/// What each of the options says.
pub open spec fn option_views(s: Seq<DispatchOption>) -> Seq<OptionView> {
    s.map_values(|o: DispatchOption| o@)
}

/// Which sub-view of the modal is active.
#[derive(Debug, Clone, Copy, PartialEq, Eq, Structural)]
pub enum DispatchView {
    /// Pick an existing surface, or `n` for a new one.
    PickSurface { selection: usize },
    /// Pick the agent for a new surface.
    PickAgent { selection: usize },
}

/// Outcome of a key press that the caller acts on.
#[derive(Debug, Clone, PartialEq, Eq)]
pub enum DispatchOutcome {
    /// The modal took the key; nothing else to do.
    Handled,
    /// The user cancelled.
    Cancel,
    /// The goal goes to an existing surface.
    SelectExisting { surface_ref: String, kind: SurfaceKind },
    /// The goal goes to a new surface with the given agent.
    NewSurface { kind: SurfaceKind },
}

/// What an outcome says.
pub enum OutcomeView {
    Handled,
    Cancel,
    SelectExisting { surface_ref: Seq<char>, kind: SurfaceKind },
    NewSurface { kind: SurfaceKind },
}

impl View for DispatchOutcome {
    type V = OutcomeView;

    open spec fn view(&self) -> OutcomeView {
        match *self {
            DispatchOutcome::Handled => OutcomeView::Handled,
            DispatchOutcome::Cancel => OutcomeView::Cancel,
            DispatchOutcome::SelectExisting { surface_ref, kind } => OutcomeView::SelectExisting {
                surface_ref: surface_ref@,
                kind,
            },
            DispatchOutcome::NewSurface { kind } => OutcomeView::NewSurface { kind },
        }
    }
}

/// The modal's state.
#[derive(Debug, Clone)]
pub struct DispatchModal {
    pub goal_text: String,
    pub workspace_uuid: String,
    pub workspace_ref: String,
    pub view: DispatchView,
    pub options: Vec<DispatchOption>,
    /// Set when a dispatch failed; the next key clears it.
    pub error: Option<String>,
}

/// What the modal says.
#[verifier::ext_equal]
pub struct ModalView {
    pub goal_text: Seq<char>,
    pub workspace_uuid: Seq<char>,
    pub workspace_ref: Seq<char>,
    pub view: DispatchView,
    pub options: Seq<OptionView>,
    pub error: Option<Seq<char>>,
}

impl View for DispatchModal {
    type V = ModalView;

    open spec fn view(&self) -> ModalView {
        ModalView {
            goal_text: self.goal_text@,
            workspace_uuid: self.workspace_uuid@,
            workspace_ref: self.workspace_ref@,
            view: self.view,
            options: option_views(self.options@),
            error: opt_view(self.error),
        }
    }
}

/// A surface that takes input: it has a terminal.
pub open spec fn is_terminal(s: SurfaceInfo) -> bool {
    match s.tty {
        Some(t) => t@.len() > 0,
        None => false,
    }
}

/// The option for a terminal.
pub open spec fn offer(s: SurfaceInfo) -> OptionView {
    OptionView::Existing { surface_ref: s.ref_id@, kind: s.kind, label: s.title@ }
}

/// The options for the first `n` surfaces.
pub open spec fn offered(surfaces: Seq<SurfaceInfo>, n: int) -> Seq<OptionView>
    decreases n,
{
    if n <= 0 {
        Seq::empty()
    } else if is_terminal(surfaces[n - 1]) {
        offered(surfaces, n - 1).push(offer(surfaces[n - 1]))
    } else {
        offered(surfaces, n - 1)
    }
}

/// At most as many options as there are digits.
pub open spec fn with_digits(options: Seq<OptionView>) -> Seq<OptionView> {
    if options.len() <= MAX_SURFACES {
        options
    } else {
        options.take(MAX_SURFACES as int)
    }
}

/// The options of a fresh modal: the first nine terminals, and a new surface.
pub open spec fn fresh_options(surfaces: Seq<SurfaceInfo>) -> Seq<OptionView> {
    with_digits(offered(surfaces, surfaces.len() as int)).push(OptionView::NewSurface)
}

/// The existing surfaces among the first `n` options.
pub open spec fn existing(options: Seq<OptionView>, n: int) -> Seq<(Seq<char>, SurfaceKind)>
    decreases n,
{
    if n <= 0 {
        Seq::empty()
    } else {
        match options[n - 1] {
            OptionView::Existing { surface_ref, kind, label } => existing(options, n - 1).push(
                (surface_ref, kind),
            ),
            OptionView::NewSurface => existing(options, n - 1),
        }
    }
}

/// All existing surfaces on offer, in order.
pub open spec fn all_existing(m: ModalView) -> Seq<(Seq<char>, SurfaceKind)> {
    existing(m.options, m.options.len() as int)
}

/// The surface that a digit from 1 to 9 names.
pub open spec fn chosen(m: ModalView, index: int) -> OutcomeView {
    if 0 <= index < all_existing(m).len() {
        OutcomeView::SelectExisting {
            surface_ref: all_existing(m)[index].0,
            kind: all_existing(m)[index].1,
        }
    } else {
        OutcomeView::Handled
    }
}

/// The modal and the outcome after a key.
pub open spec fn after_key(m: ModalView, code: KeyCode) -> (ModalView, OutcomeView) {
    let clean = ModalView { error: None, ..m };
    match m.view {
        DispatchView::PickSurface { .. } => match code {
            KeyCode::Esc => (clean, OutcomeView::Cancel),
            KeyCode::Char(c) => if c == 'n' || c == 'N' {
                (
                    ModalView { view: DispatchView::PickAgent { selection: 0 }, ..clean },
                    OutcomeView::Handled,
                )
            } else if '1' <= c <= '9' {
                (clean, chosen(clean, c as int - '1' as int))
            } else {
                (clean, OutcomeView::Handled)
            },
            _ => (clean, OutcomeView::Handled),
        },
        DispatchView::PickAgent { .. } => match code {
            KeyCode::Esc => (
                ModalView { view: DispatchView::PickSurface { selection: 0 }, ..clean },
                OutcomeView::Handled,
            ),
            KeyCode::Char(c) => if c == 'c' || c == 'C' {
                (clean, OutcomeView::NewSurface { kind: SurfaceKind::Claude })
            } else if c == 'x' || c == 'X' {
                (clean, OutcomeView::NewSurface { kind: SurfaceKind::Codex })
            } else {
                (clean, OutcomeView::Handled)
            },
            _ => (clean, OutcomeView::Handled),
        },
    }
}

proof fn lemma_offered(surfaces: Seq<SurfaceInfo>, n: int, k: int)
    requires
        0 <= n <= surfaces.len(),
        0 <= k < offered(surfaces, n).len(),
    ensures
        offered(surfaces, n)[k] is Existing,
        exists|i: int|
            0 <= i < n && is_terminal(#[trigger] surfaces[i]) && offered(surfaces, n)[k] == offer(
                surfaces[i],
            ),
    decreases n,
{
    if is_terminal(surfaces[n - 1]) && k == offered(surfaces, n).len() - 1 {
        assert(offered(surfaces, n)[k] == offer(surfaces[n - 1]));
    } else {
        lemma_offered(surfaces, n - 1, k);
    }
}

proof fn lemma_terminal_offered(surfaces: Seq<SurfaceInfo>, n: int, i: int)
    requires
        0 <= i < n <= surfaces.len(),
        is_terminal(surfaces[i]),
    ensures
        offered(surfaces, n).contains(offer(surfaces[i])),
    decreases n,
{
    let o = offered(surfaces, n);
    if i == n - 1 {
        assert(o[o.len() - 1] == offer(surfaces[i]));
    } else {
        lemma_terminal_offered(surfaces, n - 1, i);
        let before = offered(surfaces, n - 1);
        let k = choose|k: int| 0 <= k < before.len() && before[k] == offer(surfaces[i]);
        assert(o[k] == offer(surfaces[i]));
    }
}

proof fn lemma_existing(options: Seq<OptionView>, n: int, k: int)
    requires
        0 <= k < n <= options.len(),
        forall|j: int| 0 <= j < n ==> (#[trigger] options[j]) is Existing,
    ensures
        existing(options, n).len() == n,
        existing(options, n)[k] == (
            options[k]->Existing_surface_ref,
            options[k]->Existing_kind,
        ),
    decreases n,
{
    if k < n - 1 {
        lemma_existing(options, n - 1, k);
    } else if n > 1 {
        lemma_existing(options, n - 1, 0);
    } else {
        assert(existing(options, 0).len() == 0);
    }
}

/// Browsers take no digit: a fresh modal offers every terminal of the workspace, in
/// order, as long as there are at most nine, and the first nine of more.
pub proof fn every_terminal_is_offered(surfaces: Seq<SurfaceInfo>, i: int)
    requires
        0 <= i < surfaces.len(),
        is_terminal(surfaces[i]),
    ensures
        fresh_options(surfaces).last() is NewSurface,
        fresh_options(surfaces).drop_last() == with_digits(
            offered(surfaces, surfaces.len() as int),
        ),
        offered(surfaces, surfaces.len() as int).len() <= MAX_SURFACES ==> fresh_options(
            surfaces,
        ).contains(offer(surfaces[i])),
{
    let all = offered(surfaces, surfaces.len() as int);
    let fresh = fresh_options(surfaces);
    assert(fresh.drop_last() =~= with_digits(all));
    lemma_terminal_offered(surfaces, surfaces.len() as int, i);
    if all.len() <= MAX_SURFACES {
        let k = choose|k: int| 0 <= k < all.len() && all[k] == offer(surfaces[i]);
        assert(fresh[k] == offer(surfaces[i]));
    }
}

/// Every terminal on offer has a digit: in a fresh modal the digit `k + 1` sends the
/// goal to the terminal at position `k`.
pub proof fn every_offer_has_a_digit(
    m: ModalView,
    surfaces: Seq<SurfaceInfo>,
    k: int,
    digit: char,
)
    requires
        m.view is PickSurface,
        m.options == fresh_options(surfaces),
        0 <= k < with_digits(offered(surfaces, surfaces.len() as int)).len(),
        digit as int == '1' as int + k,
    ensures
        after_key(m, KeyCode::Char(digit)).1 == (OutcomeView::SelectExisting {
            surface_ref: offered(surfaces, surfaces.len() as int)[k]->Existing_surface_ref,
            kind: offered(surfaces, surfaces.len() as int)[k]->Existing_kind,
        }),
{
    let all = offered(surfaces, surfaces.len() as int);
    let n = with_digits(all).len() as int;
    assert forall|j: int| 0 <= j < n implies (#[trigger] m.options[j]) is Existing by {
        lemma_offered(surfaces, surfaces.len() as int, j);
        assert(m.options[j] == all[j]);
    }
    lemma_existing(m.options, n, k);
    assert(m.options[n] is NewSurface);
    assert(existing(m.options, n + 1) == existing(m.options, n));
    assert(m.options[k] == all[k]);
}

/// Escape cancels without side effects: but for an error that is no longer shown, the
/// modal stays as it is. From the choice of an agent it leads back to the surfaces.
pub proof fn escape_has_no_side_effects(m: ModalView)
    ensures
        m.view is PickSurface ==> after_key(m, KeyCode::Esc) == (
            ModalView { error: None, ..m },
            OutcomeView::Cancel,
        ),
        m.view is PickAgent ==> after_key(m, KeyCode::Esc) == (
            ModalView { error: None, view: DispatchView::PickSurface { selection: 0 }, ..m },
            OutcomeView::Handled,
        ),
{
}

/// No key that the modal takes loses the goal or the offers.
pub proof fn keys_keep_the_goal(m: ModalView, code: KeyCode)
    ensures
        after_key(m, code).0.goal_text == m.goal_text,
        after_key(m, code).0.options == m.options,
        after_key(m, code).0.workspace_uuid == m.workspace_uuid,
        after_key(m, code).0.error is None,
{
}

impl DispatchModal {
    /// Builds a modal for a goal. It offers the first nine terminals.
    pub fn new(
        goal_text: String,
        workspace_uuid: String,
        workspace_ref: String,
        surfaces: &Vec<SurfaceInfo>,
    ) -> (r: Self)
        ensures
            r@ == (ModalView {
                goal_text: goal_text@,
                workspace_uuid: workspace_uuid@,
                workspace_ref: workspace_ref@,
                view: DispatchView::PickSurface { selection: 0 },
                options: fresh_options(surfaces@),
                error: None,
            }),
    {
        let mut options: Vec<DispatchOption> = Vec::new();
        let mut i: usize = 0;
        assert(option_views(options@) =~= Seq::<OptionView>::empty());
        while i < surfaces.len()
            invariant
                i <= surfaces@.len(),
                option_views(options@) == with_digits(offered(surfaces@, i as int)),
            decreases surfaces@.len() - i,
        {
            let s = &surfaces[i];
            let terminal = match &s.tty {
                Some(t) => t.as_str().unicode_len() > 0,
                None => false,
            };
            assert(option_views(options@).len() == options@.len());
            if terminal && options.len() < MAX_SURFACES {
                let o = DispatchOption::Existing {
                    surface_ref: s.ref_id.clone(),
                    kind: s.kind,
                    label: s.title.clone(),
                };
                let ghost before = options@;
                options.push(o);
                assert(option_views(options@) =~= option_views(before).push(o@));
            }
            assert(option_views(options@) =~= with_digits(offered(surfaces@, i + 1)));
            i += 1;
        }
        let ghost before = options@;
        options.push(DispatchOption::NewSurface);
        assert(option_views(options@) =~= option_views(before).push(OptionView::NewSurface));
        DispatchModal {
            goal_text,
            workspace_uuid,
            workspace_ref,
            view: DispatchView::PickSurface { selection: 0 },
            options,
            error: None,
        }
    }

    /// How many existing surfaces are on offer.
    pub fn existing_count(&self) -> (r: usize)
        ensures
            r == all_existing(self@).len(),
    {
        let mut count: usize = 0;
        let mut i: usize = 0;
        while i < self.options.len()
            invariant
                i <= self.options@.len(),
                count <= i,
                count == existing(self@.options, i as int).len(),
            decreases self.options@.len() - i,
        {
            assert(self@.options[i as int] == self.options@[i as int]@);
            match &self.options[i] {
                DispatchOption::Existing { .. } => {
                    count += 1;
                },
                DispatchOption::NewSurface => {},
            }
            i += 1;
        }
        count
    }

    /// The surface with the given position among the existing ones.
    pub fn select_existing(&self, idx: usize) -> (r: DispatchOutcome)
        ensures
            r@ == chosen(self@, idx as int),
    {
        let mut count: usize = 0;
        let mut i: usize = 0;
        while i < self.options.len()
            invariant
                i <= self.options@.len(),
                count <= i,
                count <= idx,
                count == existing(self@.options, i as int).len(),
            decreases self.options@.len() - i,
        {
            assert(self@.options[i as int] == self.options@[i as int]@);
            match &self.options[i] {
                DispatchOption::Existing { surface_ref, kind, label } => {
                    if count == idx {
                        proof {
                            lemma_existing_grows(self@.options, i + 1, self@.options.len() as int);
                            assert(existing(self@.options, i + 1)[idx as int] == (
                                surface_ref@,
                                *kind,
                            ));
                        }
                        return DispatchOutcome::SelectExisting {
                            surface_ref: surface_ref.clone(),
                            kind: *kind,
                        };
                    }
                    count += 1;
                },
                DispatchOption::NewSurface => {},
            }
            i += 1;
        }
        DispatchOutcome::Handled
    }

    /// Handles a key while the modal is open.
    pub fn handle_key(&mut self, key: KeyEvent) -> (r: DispatchOutcome)
        ensures
            (final(self)@, r@) == after_key(old(self)@, key.code),
    {
        self.error = None;
        match self.view {
            DispatchView::PickSurface { .. } => match key.code {
                KeyCode::Esc => DispatchOutcome::Cancel,
                KeyCode::Char(c) => {
                    if c == 'n' || c == 'N' {
                        self.view = DispatchView::PickAgent { selection: 0 };
                        DispatchOutcome::Handled
                    } else if '1' <= c && c <= '9' {
                        let idx: u32 = (c as u32) - ('1' as u32);
                        self.select_existing(idx as usize)
                    } else {
                        DispatchOutcome::Handled
                    }
                },
                _ => DispatchOutcome::Handled,
            },
            DispatchView::PickAgent { .. } => match key.code {
                KeyCode::Esc => {
                    self.view = DispatchView::PickSurface { selection: 0 };
                    DispatchOutcome::Handled
                },
                KeyCode::Char(c) => {
                    if c == 'c' || c == 'C' {
                        DispatchOutcome::NewSurface { kind: SurfaceKind::Claude }
                    } else if c == 'x' || c == 'X' {
                        DispatchOutcome::NewSurface { kind: SurfaceKind::Codex }
                    } else {
                        DispatchOutcome::Handled
                    }
                },
                _ => DispatchOutcome::Handled,
            },
        }
    }
}

proof fn lemma_existing_grows(options: Seq<OptionView>, i: int, n: int)
    requires
        0 <= i <= n,
    ensures
        existing(options, i).len() <= existing(options, n).len(),
        forall|k: int|
            0 <= k < existing(options, i).len() ==> #[trigger] existing(options, n)[k] == existing(
                options,
                i,
            )[k],
    decreases n - i,
{
    if i < n {
        lemma_existing_grows(options, i, n - 1);
    }
}

// ---------------------------------------------------------------------------
// What the modal shows
// ---------------------------------------------------------------------------

/// The modal's height: borders, one line per surface, and two more.
pub open spec fn height_of(m: ModalView) -> int {
    match m.view {
        DispatchView::PickSurface { .. } => (if all_existing(m).len() <= 9 {
            all_existing(m).len() as int
        } else {
            9
        }) + 4,
        DispatchView::PickAgent { .. } => 4,
    }
}

/// The modal's height.
pub fn modal_height_for(modal: &DispatchModal) -> (r: u16)
    ensures
        r == height_of(modal@),
{
    match modal.view {
        DispatchView::PickSurface { .. } => {
            let n: usize = modal.existing_count();
            if n <= 9 {
                (n as u16) + 4
            } else {
                13
            }
        },
        DispatchView::PickAgent { .. } => 4,
    }
}

/// The modal's title.
pub open spec fn title_of(m: ModalView) -> Seq<char> {
    " Dispatch: \""@ + truncated_within(m.goal_text, 60) + "\" "@
}

/// The modal's title.
pub fn modal_title(modal: &DispatchModal) -> (r: String)
    ensures
        r@ == title_of(modal@),
{
    concat3(" Dispatch: \"", truncate(modal.goal_text.as_str(), 60).as_str(), "\" ")
}

/// A text followed by spaces up to `n` characters.
pub open spec fn padded(s: Seq<char>, n: int) -> Seq<char> {
    s + spaces(n - s.len())
}

/// Pads a text with spaces up to `n` characters.
pub fn pad(s: &str, n: usize) -> (r: String)
    ensures
        r@ == padded(s@, n as int),
{
    let len: usize = s.unicode_len();
    let r = concat2(s, spaces_string(n.saturating_sub(len)).as_str());
    assert(spaces(n.saturating_sub(len) as int) =~= spaces(n - len));
    r
}

/// The line of an existing surface with the given number.
pub open spec fn surface_line(
    agents: AgentTable,
    number: int,
    surface_ref: Seq<char>,
    kind: SurfaceKind,
    name: Seq<char>,
) -> Seq<SpanView> {
    seq![
        sp("  ["@ + decimal(number as nat) + "] "@, fg(Color::Yellow)),
        sp(seq![kind.glyph_spec()] + " "@, fg(color_of_kind(kind))),
        sp(padded(agents.label(kind), 7) + " "@, fg(Color::White)),
        sp(padded(truncated_within(name, 24), 24) + " "@, fg(Color::Gray)),
        sp(surface_ref, fg(Color::DarkGray)),
    ]
}

/// The lines of the first `n` options.
pub open spec fn option_lines(agents: AgentTable, options: Seq<OptionView>, n: int) -> Seq<
    Seq<SpanView>,
>
    decreases n,
{
    if n <= 0 {
        Seq::empty()
    } else {
        option_lines(agents, options, n - 1).push(
            match options[n - 1] {
                OptionView::Existing { surface_ref, kind, label } => surface_line(
                    agents,
                    existing(options, n).len() as int,
                    surface_ref,
                    kind,
                    label,
                ),
                OptionView::NewSurface => seq![
                    sp("  [n] "@, fg(Color::Green)),
                    sp("+ new surface (pick agent)"@, fg(Color::Gray)),
                ],
            },
        )
    }
}

/// The lines of the surface picker.
pub open spec fn pick_surface_lines(agents: AgentTable, m: ModalView) -> Seq<Seq<SpanView>> {
    let shown = option_lines(agents, m.options, m.options.len() as int).push(
        seq![
            sp("  [Esc] "@, fg(Color::DarkGray)),
            sp("cancel"@, Style { italic: true, ..fg(Color::DarkGray) }),
        ],
    );
    match m.error {
        Some(e) => shown.push(seq![sp("  error: "@ + e, fg(Color::Red))]),
        None => shown,
    }
}

/// The lines of the agent picker.
pub open spec fn pick_agent_lines(agents: AgentTable) -> Seq<Seq<SpanView>> {
    seq![
        seq![
            sp("  Pick agent: "@, fg(Color::White)),
            sp("[c] "@, fg(Color::Yellow)),
            sp(agents.title(SurfaceKind::Claude) + "  "@, fg(color_of_kind(SurfaceKind::Claude))),
            sp("[x] "@, fg(Color::Yellow)),
            sp(agents.title(SurfaceKind::Codex) + "  "@, fg(color_of_kind(SurfaceKind::Codex))),
        ],
        seq![sp("  [Esc] "@, fg(Color::DarkGray)), sp("back"@, fg(Color::DarkGray))],
    ]
}

fn glyph_text(kind: SurfaceKind) -> (r: String)
    ensures
        r@ == seq![kind.glyph_spec()] + " "@,
{
    let mut s = String::new();
    s.push(kind.glyph());
    s.append(" ");
    assert(s@ =~= seq![kind.glyph_spec()] + " "@);
    s
}

fn surface_row(
    agents: &AgentTable,
    number: usize,
    surface_ref: &String,
    kind: SurfaceKind,
    name: &String,
) -> (r: Line)
    ensures
        r@ == surface_line(*agents, number as int, surface_ref@, kind, name@),
{
    let mut l = line1(
        span(concat3("  [", decimal_string(number).as_str(), "] "), fg(Color::Yellow)),
    );
    push_span(&mut l, span(glyph_text(kind), fg(kind_color(kind))));
    push_span(&mut l, span(
            concat2(pad(agents.kind_label(kind).as_str(), 7).as_str(), " "),
            fg(Color::White),
        ));
    push_span(
        &mut l,
        span(concat2(pad(truncate(name.as_str(), 24).as_str(), 24).as_str(), " "), fg(Color::Gray)),
    );
    push_span(&mut l, span(surface_ref.clone(), fg(Color::DarkGray)));
    assert(l@ =~= surface_line(*agents, number as int, surface_ref@, kind, name@));
    l
}

/// The lines of the surface picker.
pub fn render_pick_surface_lines(modal: &DispatchModal, agents: &AgentTable) -> (r: Vec<Line>)
    ensures
        line_views(r@) == pick_surface_lines(*agents, modal@),
{
    let mut lines = no_lines();
    let mut number: usize = 0;
    let mut i: usize = 0;
    while i < modal.options.len()
        invariant
            i <= modal.options@.len(),
            number <= i,
            number == existing(modal@.options, i as int).len(),
            line_views(lines@) == option_lines(*agents, modal@.options, i as int),
        decreases modal.options@.len() - i,
    {
        assert(modal@.options[i as int] == modal.options@[i as int]@);
        match &modal.options[i] {
            DispatchOption::Existing { surface_ref, kind, label } => {
                number += 1;
                push_line(&mut lines, surface_row(agents, number, surface_ref, *kind, label));
            },
            DispatchOption::NewSurface => {
                push_line(
                    &mut lines,
                    line2(
                        label("  [n] ", fg(Color::Green)),
                        label("+ new surface (pick agent)", fg(Color::Gray)),
                    ),
                );
            },
        }
        i += 1;
    }
    assert(modal@.options.len() == modal.options@.len());
    let dark = fg(Color::DarkGray);
    let cancel = line2(
        label("  [Esc] ", dark),
        label("cancel", Style { italic: true, ..dark }),
    );
    assert(cancel@ =~= seq![
        sp("  [Esc] "@, fg(Color::DarkGray)),
        sp("cancel"@, Style { italic: true, ..fg(Color::DarkGray) }),
    ]);
    push_line(&mut lines, cancel);
    if let Some(e) = &modal.error {
        push_line(&mut lines, line1(span(concat2("  error: ", e.as_str()), fg(Color::Red))));
    }
    lines
}

/// The lines of the agent picker.
pub fn render_pick_agent_lines(agents: &AgentTable) -> (r: Vec<Line>)
    ensures
        line_views(r@) == pick_agent_lines(*agents),
{
    let mut first = line2(
        label("  Pick agent: ", fg(Color::White)),
        label("[c] ", fg(Color::Yellow)),
    );
    push_span(
        &mut first,
        span(
            concat2(agents.kind_title(SurfaceKind::Claude).as_str(), "  "),
            fg(kind_color(SurfaceKind::Claude)),
        ),
    );
    push_span(&mut first, label("[x] ", fg(Color::Yellow)));
    push_span(
        &mut first,
        span(
            concat2(agents.kind_title(SurfaceKind::Codex).as_str(), "  "),
            fg(kind_color(SurfaceKind::Codex)),
        ),
    );
    assert(first@ =~= pick_agent_lines(*agents)[0]);
    let mut lines = no_lines();
    push_line(&mut lines, first);
    push_line(
        &mut lines,
        line2(label("  [Esc] ", fg(Color::DarkGray)), label("back", fg(Color::DarkGray))),
    );
    assert(line_views(lines@) =~= pick_agent_lines(*agents));
    lines
}

/// The lines of whichever picker is open.
pub fn modal_lines(modal: &DispatchModal, agents: &AgentTable) -> (r: Vec<Line>)
    ensures
        line_views(r@) == match modal.view {
            DispatchView::PickSurface { .. } => pick_surface_lines(*agents, modal@),
            DispatchView::PickAgent { .. } => pick_agent_lines(*agents),
        },
{
    match modal.view {
        DispatchView::PickSurface { .. } => render_pick_surface_lines(modal, agents),
        DispatchView::PickAgent { .. } => render_pick_agent_lines(agents),
    }
}

} // verus!
