//! The modal for a verified handoff to another device.
use crate::agents::AgentTable;
use crate::handoff::{
    HandoffFailure, HandoffPlan, HandoffSourceContext, HandoffStage, HandoffSuccess, HandoffTarget,
    HandoffUpdateKind,
};
use crate::keys::{KeyCode, KeyEvent};
use crate::numeral::{decimal, decimal_string};
use crate::order::{sort_dedup, strictly_sorted};
use crate::style::{
    bold_fg, fg, label, line1, line2, line_views, no_lines, plain, push_line, sp, span, Color, Line,
    SpanView,
};
use crate::surface::SurfaceKind;
use crate::text::{concat2, concat3, push_once, views, with_once};
use crate::wrap::{truncate, truncated_within};
use vstd::prelude::*;

verus! {

/// What the modal shows.
#[derive(Debug, PartialEq, Eq)]
pub enum HandoffView {
    PickTarget,
    Confirm,
    Running(HandoffStage),
    Success(HandoffSuccess),
    Failure(HandoffFailure),
    Unavailable(String),
}

/// What a key press asks of the caller.
#[derive(Debug, PartialEq, Eq)]
pub enum HandoffOutcome {
    Handled,
    Cancel,
    Start(Box<HandoffPlan>),
}

/// The modal's state.
#[derive(Debug)]
pub struct HandoffModal {
    pub workspace_uuid: String,
    pub surface_label: String,
    pub generation: u64,
    pub view: HandoffView,
    pub source: Option<HandoffSourceContext>,
    pub peers: Vec<String>,
    pub profiles: Vec<String>,
    pub peer_index: usize,
    pub profile_index: usize,
    pub last_plan: Option<HandoffPlan>,
}

/// Within a list, or at its start when it is empty.
pub open spec fn index_in(i: int, n: int) -> bool {
    0 <= i && (i < n || n == 0 && i == 0)
}

/// One step forward, from the last to the first.
pub open spec fn next_index(i: int, n: int) -> int {
    if n <= 0 {
        i
    } else if i + 1 == n {
        0
    } else {
        i + 1
    }
}

/// One step back, from the first to the last.
pub open spec fn prev_index(i: int, n: int) -> int {
    if n <= 0 {
        i
    } else if i == 0 {
        n - 1
    } else {
        i - 1
    }
}

/// Stepping forward and back returns to the same place, from anywhere.
pub proof fn steps_cancel_out(i: int, n: int)
    requires
        index_in(i, n),
    ensures
        prev_index(next_index(i, n), n) == i,
        next_index(prev_index(i, n), n) == i,
        index_in(next_index(i, n), n),
        index_in(prev_index(i, n), n),
{
}

/// The profiles on offer: the source's agent first, then the first `n` known ones,
/// each once.
pub open spec fn profiles_for(agent: Seq<char>, known: Seq<Seq<char>>, n: int) -> Seq<Seq<char>>
    decreases n,
{
    if n <= 0 {
        seq![agent]
    } else {
        with_once(profiles_for(agent, known, n - 1), known[n - 1])
    }
}

/// The profiles that a session can be handed to, whatever agent runs in it.
pub open spec fn known_profiles(agents: AgentTable) -> Seq<Seq<char>> {
    seq!["codex"@, agents.label(SurfaceKind::Claude), "grok"@]
}

/// The profiles that a session can be handed to, whatever agent runs in it.
pub fn handoff_profiles(agents: &AgentTable) -> (r: Vec<String>)
    ensures
        views(r@) == known_profiles(*agents),
{
    let mut r: Vec<String> = Vec::new();
    r.push(String::from_str("codex"));
    r.push(agents.kind_label(SurfaceKind::Claude));
    r.push(String::from_str("grok"));
    assert(views(r@) =~= known_profiles(*agents));
    r
}

proof fn lemma_profiles_for(agent: Seq<char>, known: Seq<Seq<char>>, n: int)
    requires
        0 <= n <= known.len(),
    ensures
        profiles_for(agent, known, n).len() > 0,
        profiles_for(agent, known, n)[0] == agent,
        profiles_for(agent, known, n).no_duplicates(),
        forall|k: int| 0 <= k < n ==> profiles_for(agent, known, n).contains(#[trigger] known[k]),
        forall|p: Seq<char>| #[trigger] profiles_for(agent, known, n).contains(p) ==> p == agent
            || known.contains(p),
    decreases n,
{
    let now = profiles_for(agent, known, n);
    if n > 0 {
        lemma_profiles_for(agent, known, n - 1);
        let before = profiles_for(agent, known, n - 1);
        if !before.contains(known[n - 1]) {
            assert(now[before.len() as int] == known[n - 1]);
            assert forall|k: int| 0 <= k < n implies now.contains(#[trigger] known[k]) by {
                if k < n - 1 {
                    let j = choose|j: int| 0 <= j < before.len() && before[j] == known[k];
                    assert(now[j] == known[k]);
                }
            }
            assert forall|p: Seq<char>| #[trigger] now.contains(p) implies p == agent
                || known.contains(p) by {
                let j = choose|j: int| 0 <= j < now.len() && now[j] == p;
                if j < before.len() {
                    assert(before.contains(before[j]));
                } else {
                    assert(known.contains(known[n - 1]));
                }
            }
        }
    } else {
        assert(now[0] == agent);
    }
}

/// The profiles on offer begin with the source's own agent, hold every known profile,
/// and hold each once and nothing else.
pub proof fn every_known_profile_is_offered(agent: Seq<char>, agents: AgentTable)
    ensures
        ({
            let known = known_profiles(agents);
            let offered = profiles_for(agent, known, known.len() as int);
            &&& offered.len() > 0
            &&& offered[0] == agent
            &&& offered.no_duplicates()
            &&& offered.contains("codex"@)
            &&& offered.contains(agents.label(SurfaceKind::Claude))
            &&& offered.contains("grok"@)
            &&& forall|p: Seq<char>| #[trigger] offered.contains(p) ==> p == agent
                || known.contains(p)
        }),
{
    let known = known_profiles(agents);
    lemma_profiles_for(agent, known, known.len() as int);
    assert(known[0] == "codex"@);
    assert(known[1] == agents.label(SurfaceKind::Claude));
    assert(known[2] == "grok"@);
}

impl HandoffModal {
    /// The cursors are on entries that exist.
    pub open spec fn well_formed(self) -> bool {
        &&& index_in(self.peer_index as int, self.peers@.len() as int)
        &&& index_in(self.profile_index as int, self.profiles@.len() as int)
    }

    /// The plan that confirming would start.
    pub open spec fn plan_spec(self) -> Option<HandoffPlan> {
        match self.source {
            Some(source) => if self.peer_index < self.peers@.len() && self.profile_index
                < self.profiles@.len() {
                Some(
                    HandoffPlan {
                        source,
                        target: HandoffTarget {
                            peer_id: self.peers@[self.peer_index as int],
                            profile: self.profiles@[self.profile_index as int],
                        },
                    },
                )
            } else {
                None
            },
            None => None,
        }
    }

    /// Builds the modal for a session and the peers that could take it. The profiles
    /// begin with the session's own agent; the known ones follow.
    pub fn new(
        source: HandoffSourceContext,
        surface_label: String,
        peers: Vec<String>,
        agents: &AgentTable,
    ) -> (r: Self)
        ensures
            r.well_formed(),
            r.workspace_uuid@ == source.workspace_uuid@,
            r.surface_label == surface_label,
            r.generation == 0,
            r.source == Some(source),
            strictly_sorted(views(r.peers@)),
            forall|y: Seq<char>| views(r.peers@).contains(y) <==> views(peers@).contains(y),
            views(r.profiles@) == profiles_for(
                source.agent@,
                known_profiles(*agents),
                known_profiles(*agents).len() as int,
            ),
            r.peer_index == 0,
            r.profile_index == 0,
            r.last_plan is None,
            if peers@.len() == 0 {
                r.view matches HandoffView::Unavailable(m) && m@
                    == "no connected handoff-capable peers"@
            } else {
                r.view is PickTarget
            },
    {
        let known = handoff_profiles(agents);
        assert(views(known@).len() == known@.len());
        let sorted = sort_dedup(&peers);
        proof {
            if sorted@.len() > 0 {
                assert(views(sorted@).contains(views(sorted@)[0]));
                assert(views(peers@).contains(views(sorted@)[0]));
            }
            if peers@.len() > 0 {
                assert(views(peers@).contains(views(peers@)[0]));
                assert(views(sorted@).contains(views(peers@)[0]));
            }
        }
        let mut profiles: Vec<String> = Vec::new();
        profiles.push(source.agent.clone());
        assert(views(profiles@) =~= seq![source.agent@]);
        let mut i: usize = 0;
        while i < known.len()
            invariant
                i <= known@.len(),
                views(profiles@) == profiles_for(source.agent@, views(known@), i as int),
                profiles@.len() > 0,
            decreases known@.len() - i,
        {
            push_once(&mut profiles, known[i].as_str());
            assert(views(profiles@).len() == profiles@.len());
            i += 1;
        }
        let view = if sorted.len() == 0 {
            HandoffView::Unavailable(String::from_str("no connected handoff-capable peers"))
        } else {
            HandoffView::PickTarget
        };
        assert(views(profiles@).len() == profiles@.len());
        HandoffModal {
            workspace_uuid: source.workspace_uuid.clone(),
            surface_label,
            generation: 0,
            view,
            source: Some(source),
            peers: sorted,
            profiles,
            peer_index: 0,
            profile_index: 0,
            last_plan: None,
        }
    }

    /// A modal that only says why no handoff is possible.
    pub fn unavailable(
        workspace_uuid: String,
        surface_label: String,
        message: String,
    ) -> (r: Self)
        ensures
            r.well_formed(),
            r.workspace_uuid == workspace_uuid,
            r.surface_label == surface_label,
            r.generation == 0,
            r.view == HandoffView::Unavailable(message),
            r.source is None,
            r.peers@.len() == 0,
            r.profiles@.len() == 0,
            r.peer_index == 0,
            r.profile_index == 0,
            r.last_plan is None,
            r.plan_spec() is None,
    {
        HandoffModal {
            workspace_uuid,
            surface_label,
            generation: 0,
            view: HandoffView::Unavailable(message),
            source: None,
            peers: Vec::new(),
            profiles: Vec::new(),
            peer_index: 0,
            profile_index: 0,
            last_plan: None,
        }
    }

    /// The plan that confirming would start.
    pub fn selected_plan(&self) -> (r: Option<HandoffPlan>)
        ensures
            r == self.plan_spec(),
    {
        match &self.source {
            Some(source) => {
                if self.peer_index < self.peers.len() && self.profile_index < self.profiles.len() {
                    Some(
                        HandoffPlan {
                            source: source.clone(),
                            target: HandoffTarget {
                                peer_id: self.peers[self.peer_index].clone(),
                                profile: self.profiles[self.profile_index].clone(),
                            },
                        },
                    )
                } else {
                    None
                }
            },
            None => None,
        }
    }

    /// The peer under the cursor.
    pub fn selected_peer(&self) -> (r: Option<&str>)
        ensures
            match r {
                Some(s) => self.peer_index < self.peers@.len() && s@
                    == self.peers@[self.peer_index as int]@,
                None => self.peer_index >= self.peers@.len(),
            },
    {
        if self.peer_index < self.peers.len() {
            Some(self.peers[self.peer_index].as_str())
        } else {
            None
        }
    }

    /// The profile under the cursor.
    pub fn selected_profile(&self) -> (r: Option<&str>)
        ensures
            match r {
                Some(s) => self.profile_index < self.profiles@.len() && s@
                    == self.profiles@[self.profile_index as int]@,
                None => self.profile_index >= self.profiles@.len(),
            },
    {
        if self.profile_index < self.profiles.len() {
            Some(self.profiles[self.profile_index].as_str())
        } else {
            None
        }
    }

    /// Records that the handoff has started.
    pub fn mark_running(&mut self, generation: u64, plan: HandoffPlan)
        ensures
            *final(self) == (HandoffModal {
                generation,
                last_plan: Some(plan),
                view: HandoffView::Running(HandoffStage::Preparing),
                ..*old(self)
            }),
    {
        self.generation = generation;
        self.last_plan = Some(plan);
        self.view = HandoffView::Running(HandoffStage::Preparing);
    }

    /// Withdraws the source: what was confirmed no longer holds.
    pub fn invalidate_confirmation(&mut self, message: String)
        ensures
            *final(self) == (HandoffModal {
                source: None,
                last_plan: None,
                view: HandoffView::Unavailable(message),
                ..*old(self)
            }),
            final(self).plan_spec() is None,
    {
        self.source = None;
        self.last_plan = None;
        self.view = HandoffView::Unavailable(message);
    }

    /// The modal after news of a handoff.
    pub open spec fn told(self, generation: u64, kind: HandoffUpdateKind) -> HandoffModal {
        if generation != self.generation {
            self
        } else {
            HandoffModal {
                view: match kind {
                    HandoffUpdateKind::Progress(stage) => HandoffView::Running(stage),
                    HandoffUpdateKind::Finished(Ok(success)) => HandoffView::Success(success),
                    HandoffUpdateKind::Finished(Err(failure)) => HandoffView::Failure(failure),
                },
                ..self
            }
        }
    }

    /// Takes news of the running handoff; news of another one is ignored.
    pub fn apply_update(&mut self, generation: u64, kind: HandoffUpdateKind)
        ensures
            *final(self) == (if generation != old(self).generation {
                *old(self)
            } else {
                HandoffModal {
                    view: match kind {
                        HandoffUpdateKind::Progress(stage) => HandoffView::Running(stage),
                        HandoffUpdateKind::Finished(Ok(success)) => HandoffView::Success(success),
                        HandoffUpdateKind::Finished(Err(failure)) => HandoffView::Failure(failure),
                    },
                    ..*old(self)
                }
            }),
            *final(self) == old(self).told(generation, kind),
    {
        if generation != self.generation {
            return;
        }
        self.view = match kind {
            HandoffUpdateKind::Progress(stage) => HandoffView::Running(stage),
            HandoffUpdateKind::Finished(Ok(success)) => HandoffView::Success(success),
            HandoffUpdateKind::Finished(Err(failure)) => HandoffView::Failure(failure),
        };
    }

    /// The modal after a key in the target picker.
    pub open spec fn picked(self, code: KeyCode) -> HandoffModal {
        let peers = self.peers@.len() as int;
        let profiles = self.profiles@.len() as int;
        if code == KeyCode::Char('j') || code == KeyCode::Down {
            HandoffModal { peer_index: next_index(self.peer_index as int, peers) as usize, ..self }
        } else if code == KeyCode::Char('k') || code == KeyCode::Up {
            HandoffModal { peer_index: prev_index(self.peer_index as int, peers) as usize, ..self }
        } else if code == KeyCode::Char('l') || code == KeyCode::Right || code == KeyCode::Char(
            'p',
        ) {
            HandoffModal {
                profile_index: next_index(self.profile_index as int, profiles) as usize,
                ..self
            }
        } else if code == KeyCode::Char('h') || code == KeyCode::Left {
            HandoffModal {
                profile_index: prev_index(self.profile_index as int, profiles) as usize,
                ..self
            }
        } else if code == KeyCode::Enter {
            if self.plan_spec() is Some {
                HandoffModal { view: HandoffView::Confirm, ..self }
            } else {
                self
            }
        } else {
            match code {
                KeyCode::Char(c) => if '1' <= c <= '9' && (c as int - '1' as int) < peers {
                    HandoffModal {
                        peer_index: (c as int - '1' as int) as usize,
                        view: HandoffView::Confirm,
                        ..self
                    }
                } else {
                    self
                },
                _ => self,
            }
        }
    }

    /// The modal after a key.
    pub open spec fn after_key(self, code: KeyCode) -> HandoffModal {
        match self.view {
            HandoffView::PickTarget => self.picked(code),
            HandoffView::Confirm => if code == KeyCode::Esc {
                HandoffModal { view: HandoffView::PickTarget, ..self }
            } else {
                self
            },
            _ => self,
        }
    }

    /// What a key asks of the caller.
    pub open spec fn key_outcome(self, code: KeyCode) -> HandoffOutcome {
        match self.view {
            HandoffView::PickTarget => if code == KeyCode::Esc {
                HandoffOutcome::Cancel
            } else {
                HandoffOutcome::Handled
            },
            HandoffView::Confirm => if code == KeyCode::Enter || code == KeyCode::Char('y') || code
                == KeyCode::Char('Y') {
                match self.plan_spec() {
                    Some(plan) => HandoffOutcome::Start(Box::new(plan)),
                    None => HandoffOutcome::Handled,
                }
            } else {
                HandoffOutcome::Handled
            },
            HandoffView::Running(_) => HandoffOutcome::Handled,
            HandoffView::Success(_) | HandoffView::Unavailable(_) => if code == KeyCode::Esc || code
                == KeyCode::Enter {
                HandoffOutcome::Cancel
            } else {
                HandoffOutcome::Handled
            },
            HandoffView::Failure(failure) => if code == KeyCode::Esc || code == KeyCode::Enter {
                HandoffOutcome::Cancel
            } else if (code == KeyCode::Char('r') || code == KeyCode::Char('R'))
                && failure.retryable {
                match self.last_plan {
                    Some(plan) => HandoffOutcome::Start(Box::new(plan)),
                    None => HandoffOutcome::Handled,
                }
            } else {
                HandoffOutcome::Handled
            },
        }
    }

    /// Handles a key.
    pub fn handle_key(&mut self, key: KeyEvent) -> (r: HandoffOutcome)
        requires
            old(self).well_formed(),
        ensures
            final(self).well_formed(),
            *final(self) == old(self).after_key(key.code),
            r == old(self).key_outcome(key.code),
    {
        let picking = match &self.view {
            HandoffView::PickTarget => true,
            _ => false,
        };
        if picking {
            return self.handle_pick_target(key);
        }
        let confirming = match &self.view {
            HandoffView::Confirm => true,
            _ => false,
        };
        if confirming {
            return match key.code {
                KeyCode::Esc => {
                    self.view = HandoffView::PickTarget;
                    HandoffOutcome::Handled
                },
                KeyCode::Enter | KeyCode::Char('y') | KeyCode::Char('Y') => {
                    match self.selected_plan() {
                        Some(plan) => HandoffOutcome::Start(Box::new(plan)),
                        None => HandoffOutcome::Handled,
                    }
                },
                _ => HandoffOutcome::Handled,
            };
        }
        match &self.view {
            HandoffView::PickTarget | HandoffView::Confirm => HandoffOutcome::Handled,
            HandoffView::Running(_) => HandoffOutcome::Handled,
            HandoffView::Success(_) | HandoffView::Unavailable(_) => match key.code {
                KeyCode::Esc | KeyCode::Enter => HandoffOutcome::Cancel,
                _ => HandoffOutcome::Handled,
            },
            HandoffView::Failure(failure) => match key.code {
                KeyCode::Esc | KeyCode::Enter => HandoffOutcome::Cancel,
                KeyCode::Char(c) => {
                    if (c == 'r' || c == 'R') && failure.retryable {
                        match &self.last_plan {
                            Some(plan) => HandoffOutcome::Start(Box::new(plan.clone())),
                            None => HandoffOutcome::Handled,
                        }
                    } else {
                        HandoffOutcome::Handled
                    }
                },
                _ => HandoffOutcome::Handled,
            },
        }
    }

    /// Handles a key in the target picker.
    pub fn handle_pick_target(&mut self, key: KeyEvent) -> (r: HandoffOutcome)
        requires
            old(self).well_formed(),
        ensures
            final(self).well_formed(),
            *final(self) == old(self).picked(key.code),
            r == if key.code == KeyCode::Esc {
                HandoffOutcome::Cancel
            } else {
                HandoffOutcome::Handled
            },
    {
        let peers: usize = self.peers.len();
        let profiles: usize = self.profiles.len();
        match key.code {
            KeyCode::Esc => {
                return HandoffOutcome::Cancel;
            },
            KeyCode::Char('j') | KeyCode::Down => {
                if peers > 0 {
                    self.peer_index = if self.peer_index == peers - 1 {
                        0
                    } else {
                        self.peer_index + 1
                    };
                }
            },
            KeyCode::Char('k') | KeyCode::Up => {
                if peers > 0 {
                    self.peer_index = if self.peer_index == 0 {
                        peers - 1
                    } else {
                        self.peer_index - 1
                    };
                }
            },
            KeyCode::Char('l') | KeyCode::Right | KeyCode::Char('p') => {
                if profiles > 0 {
                    self.profile_index = if self.profile_index == profiles - 1 {
                        0
                    } else {
                        self.profile_index + 1
                    };
                }
            },
            KeyCode::Char('h') | KeyCode::Left => {
                if profiles > 0 {
                    self.profile_index = if self.profile_index == 0 {
                        profiles - 1
                    } else {
                        self.profile_index - 1
                    };
                }
            },
            KeyCode::Enter => {
                if self.selected_plan().is_some() {
                    self.view = HandoffView::Confirm;
                }
            },
            KeyCode::Char(c) => {
                if '1' <= c && c <= '9' {
                    let index: u32 = (c as u32) - ('1' as u32);
                    if (index as usize) < peers {
                        self.peer_index = index as usize;
                        self.view = HandoffView::Confirm;
                    }
                }
            },
            _ => {},
        }
        HandoffOutcome::Handled
    }
}

// ---------------------------------------------------------------------------
// Laws
// ---------------------------------------------------------------------------

/// A handoff only ever starts from a confirmation or a retryable failure, and
/// then with the plan that was confirmed.
pub proof fn only_confirmation_or_retry_starts(m: HandoffModal, code: KeyCode, plan: HandoffPlan)
    requires
        m.key_outcome(code) == HandoffOutcome::Start(Box::new(plan)),
    ensures
        m.view is Confirm && m.plan_spec() == Some(plan) || (m.view matches HandoffView::Failure(f)
            && f.retryable && m.last_plan == Some(plan)),
{
}

/// While a handoff runs, no key changes the modal or asks for anything.
pub proof fn a_running_handoff_absorbs_keys(m: HandoffModal, code: KeyCode)
    requires
        m.view is Running,
    ensures
        m.after_key(code) == m,
        m.key_outcome(code) == HandoffOutcome::Handled,
{
}

// ---------------------------------------------------------------------------
// What the modal shows
// ---------------------------------------------------------------------------

/// The modal's height.
pub open spec fn height_of(m: HandoffModal) -> int {
    match m.view {
        HandoffView::Failure(_) => 11,
        HandoffView::Success(_) => 9,
        _ => {
            let n = if m.peers@.len() <= 9 {
                m.peers@.len() as int
            } else {
                9
            };
            if n + 7 < 8 {
                8
            } else if n + 7 > 14 {
                14
            } else {
                n + 7
            }
        },
    }
}

/// The modal's height.
pub fn modal_height(modal: &HandoffModal) -> (r: u16)
    ensures
        r == height_of(*modal),
{
    match &modal.view {
        HandoffView::Failure(_) => 11,
        HandoffView::Success(_) => 9,
        _ => {
            let n: usize = modal.peers.len();
            if n == 0 {
                8
            } else if n >= 7 {
                14
            } else {
                (n as u16) + 7
            }
        },
    }
}

/// A hint line.
pub open spec fn hint_line(text: Seq<char>) -> Seq<SpanView> {
    seq![sp("  "@ + text, fg(Color::DarkGray))]
}

/// The profile under the cursor, or a stand-in.
pub open spec fn profile_or(m: HandoffModal, other: Seq<char>) -> Seq<char> {
    if m.profile_index < m.profiles@.len() {
        m.profiles@[m.profile_index as int]@
    } else {
        other
    }
}

/// The peer under the cursor, or a stand-in.
pub open spec fn peer_or(m: HandoffModal, other: Seq<char>) -> Seq<char> {
    if m.peer_index < m.peers@.len() {
        m.peers@[m.peer_index as int]@
    } else {
        other
    }
}

/// The line of peer `i` in the target picker.
pub open spec fn peer_line(m: HandoffModal, i: int) -> Seq<SpanView> {
    seq![
        sp("  ["@ + decimal((i + 1) as nat) + "] "@, fg(Color::Yellow)),
        sp(
            m.peers@[i]@ + " · "@ + profile_or(m, "?"@),
            if i == m.peer_index {
                bold_fg(Color::White)
            } else {
                fg(Color::Gray)
            },
        ),
    ]
}

/// The lines of a failure: what went wrong, where both ends are, and whether
/// two sessions may now be live.
pub open spec fn failure_lines(f: HandoffFailure) -> Seq<Seq<SpanView>> {
    let what = seq![
        seq![sp("  ✗ "@ + f.message@, fg(Color::Red))],
        seq![sp("  source: "@ + f.source_locator.shown() + " (still live)"@, plain())],
    ];
    let target = match f.target_locator {
        Some(t) => seq![seq![sp("  target: "@ + t.shown(), plain())]],
        None => Seq::empty(),
    };
    let reconcile = match f.handoff_id {
        Some(id) => seq![seq![sp("  reconcile: arcmux handoff show "@ + id@, plain())]],
        None => Seq::empty(),
    };
    let warning = if f.target_uncertain {
        seq![
            seq![
                sp(
                    "  ⚠ duplicate-live possible: target existence is uncertain"@,
                    bold_fg(Color::Yellow),
                ),
            ],
        ]
    } else if f.duplicate_live {
        seq![
            seq![
                sp(
                    "  ⚠ duplicate-live: target exists and source was preserved"@,
                    bold_fg(Color::Yellow),
                ),
            ],
        ]
    } else {
        Seq::empty()
    };
    let hint = if f.retryable {
        "r retry · Enter/Esc close"@
    } else {
        "Enter/Esc close"@
    };
    what + target + reconcile + warning + seq![hint_line(hint)]
}

/// The lines below the source line.
pub open spec fn view_lines(m: HandoffModal) -> Seq<Seq<SpanView>> {
    match m.view {
        HandoffView::PickTarget => {
            let n = if m.peers@.len() <= 9 {
                m.peers@.len()
            } else {
                9
            };
            seq![
                seq![
                    sp(
                        "  target profile: "@ + profile_or(m, "unavailable"@)
                            + "  [h/l or p to change]"@,
                        fg(Color::Cyan),
                    ),
                ],
            ] + Seq::new(n, |i: int| peer_line(m, i)) + seq![
                hint_line("Enter confirm · Esc cancel"@),
            ]
        },
        HandoffView::Confirm => seq![
            seq![
                sp(
                    "  move to "@ + peer_or(m, "?"@) + " · "@ + profile_or(m, "?"@) + "?"@,
                    bold_fg(Color::Yellow),
                ),
            ],
            seq![
                sp(
                    "  Source remains alive until target context is verified."@,
                    fg(Color::Gray),
                ),
            ],
            hint_line("Enter/y start · Esc back"@),
        ],
        HandoffView::Running(stage) => seq![
            seq![sp("  … "@ + stage.label_spec(), fg(Color::Yellow))],
            seq![sp("  Source is still running."@, fg(Color::Gray))],
        ],
        HandoffView::Success(s) => seq![
            seq![
                sp(
                    "  ✓ target context loaded; exact source retired"@,
                    bold_fg(Color::Green),
                ),
            ],
            seq![sp("  target: "@ + s.target_locator.shown(), plain())],
            seq![sp("  source: "@ + s.source_locator.shown() + " (retired)"@, plain())],
            hint_line("Enter/Esc close"@),
        ],
        HandoffView::Failure(f) => failure_lines(f),
        HandoffView::Unavailable(message) => seq![
            seq![sp("  unavailable: "@ + message@, fg(Color::Yellow))],
            seq![sp("  Source is unchanged."@, fg(Color::Gray))],
            hint_line("Enter/Esc close"@),
        ],
    }
}

/// All lines of the modal.
pub open spec fn modal_lines(m: HandoffModal) -> Seq<Seq<SpanView>> {
    seq![
        seq![
            sp("  source: "@, fg(Color::DarkGray)),
            sp(truncated_within(m.surface_label@, 70), fg(Color::White)),
        ],
    ] + view_lines(m)
}

fn hint(text: &str) -> (r: Line)
    ensures
        r@ == hint_line(text@),
{
    line1(span(concat2("  ", text), fg(Color::DarkGray)))
}

fn profile_text(m: &HandoffModal, other: &str) -> (r: String)
    ensures
        r@ == profile_or(*m, other@),
{
    match m.selected_profile() {
        Some(p) => String::from_str(p),
        None => String::from_str(other),
    }
}

fn peer_text(m: &HandoffModal, other: &str) -> (r: String)
    ensures
        r@ == peer_or(*m, other@),
{
    match m.selected_peer() {
        Some(p) => String::from_str(p),
        None => String::from_str(other),
    }
}

fn push_failure(lines: &mut Vec<Line>, f: &HandoffFailure)
    ensures
        line_views(final(lines)@) == line_views(old(lines)@) + failure_lines(*f),
{
    let ghost start = line_views(lines@);
    push_line(lines, line1(span(concat2("  ✗ ", f.message.as_str()), fg(Color::Red))));
    push_line(
        lines,
        line1(
            span(
                concat3("  source: ", f.source_locator.display().as_str(), " (still live)"),
                plain(),
            ),
        ),
    );
    if let Some(t) = &f.target_locator {
        push_line(lines, line1(span(concat2("  target: ", t.display().as_str()), plain())));
    }
    if let Some(id) = &f.handoff_id {
        push_line(
            lines,
            line1(span(concat2("  reconcile: arcmux handoff show ", id.as_str()), plain())),
        );
    }
    if f.target_uncertain {
        push_line(
            lines,
            line1(
                label(
                    "  ⚠ duplicate-live possible: target existence is uncertain",
                    bold_fg(Color::Yellow),
                ),
            ),
        );
    } else if f.duplicate_live {
        push_line(
            lines,
            line1(
                label(
                    "  ⚠ duplicate-live: target exists and source was preserved",
                    bold_fg(Color::Yellow),
                ),
            ),
        );
    }
    if f.retryable {
        push_line(lines, hint("r retry · Enter/Esc close"));
    } else {
        push_line(lines, hint("Enter/Esc close"));
    }
    assert(line_views(lines@) =~= start + failure_lines(*f));
}

fn push_peers(lines: &mut Vec<Line>, m: &HandoffModal, n: usize)
    requires
        n <= m.peers@.len(),
        n <= 9,
    ensures
        line_views(final(lines)@) == line_views(old(lines)@) + Seq::new(
            n as nat,
            |i: int| peer_line(*m, i),
        ),
{
    let ghost start = line_views(lines@);
    let ghost wanted = Seq::new(n as nat, |i: int| peer_line(*m, i));
    let mut i: usize = 0;
    assert(start + wanted.take(0) =~= start);
    while i < n
        invariant
            i <= n <= m.peers@.len(),
            n <= 9,
            wanted == Seq::new(n as nat, |k: int| peer_line(*m, k)),
            line_views(lines@) == start + wanted.take(i as int),
        decreases n - i,
    {
        let style = if i == m.peer_index {
            bold_fg(Color::White)
        } else {
            fg(Color::Gray)
        };
        let l = line2(
            span(concat3("  [", decimal_string(i + 1).as_str(), "] "), fg(Color::Yellow)),
            span(concat3(m.peers[i].as_str(), " · ", profile_text(m, "?").as_str()), style),
        );
        assert(l@ =~= wanted[i as int]);
        push_line(lines, l);
        assert((start + wanted.take(i as int)).push(wanted[i as int]) =~= start + wanted.take(i + 1));
        i += 1;
    }
    assert(wanted.take(n as int) =~= wanted);
}

/// The lines of the modal.
pub fn lines(modal: &HandoffModal) -> (r: Vec<Line>)
    ensures
        line_views(r@) == modal_lines(*modal),
{
    let mut out = no_lines();
    push_line(
        &mut out,
        line2(
            label("  source: ", fg(Color::DarkGray)),
            span(truncate(modal.surface_label.as_str(), 70), fg(Color::White)),
        ),
    );
    let ghost head = line_views(out@);
    match &modal.view {
        HandoffView::PickTarget => {
            push_line(
                &mut out,
                line1(
                    span(
                        concat3(
                            "  target profile: ",
                            profile_text(modal, "unavailable").as_str(),
                            "  [h/l or p to change]",
                        ),
                        fg(Color::Cyan),
                    ),
                ),
            );
            let n: usize = if modal.peers.len() <= 9 {
                modal.peers.len()
            } else {
                9
            };
            push_peers(&mut out, modal, n);
            push_line(&mut out, hint("Enter confirm · Esc cancel"));
        },
        HandoffView::Confirm => {
            let mut text = concat2("  move to ", peer_text(modal, "?").as_str());
            text.append(" · ");
            text.append(profile_text(modal, "?").as_str());
            text.append("?");
            push_line(&mut out, line1(span(text, bold_fg(Color::Yellow))));
            push_line(
                &mut out,
                line1(
                    label(
                        "  Source remains alive until target context is verified.",
                        fg(Color::Gray),
                    ),
                ),
            );
            push_line(&mut out, hint("Enter/y start · Esc back"));
        },
        HandoffView::Running(stage) => {
            push_line(
                &mut out,
                line1(span(concat2("  … ", stage.label().as_str()), fg(Color::Yellow))),
            );
            push_line(&mut out, line1(label("  Source is still running.", fg(Color::Gray))));
        },
        HandoffView::Success(s) => {
            push_line(
                &mut out,
                line1(
                    label("  ✓ target context loaded; exact source retired", bold_fg(Color::Green)),
                ),
            );
            push_line(
                &mut out,
                line1(span(concat2("  target: ", s.target_locator.display().as_str()), plain())),
            );
            push_line(
                &mut out,
                line1(
                    span(
                        concat3("  source: ", s.source_locator.display().as_str(), " (retired)"),
                        plain(),
                    ),
                ),
            );
            push_line(&mut out, hint("Enter/Esc close"));
        },
        HandoffView::Failure(f) => {
            push_failure(&mut out, f);
        },
        HandoffView::Unavailable(message) => {
            push_line(
                &mut out,
                line1(span(concat2("  unavailable: ", message.as_str()), fg(Color::Yellow))),
            );
            push_line(&mut out, line1(label("  Source is unchanged.", fg(Color::Gray))));
            push_line(&mut out, hint("Enter/Esc close"));
        },
    }
    assert(line_views(out@) =~= modal_lines(*modal));
    out
}

} // verus!
