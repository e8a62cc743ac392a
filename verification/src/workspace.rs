//! What is known of one workspace, and what its header says about it.
use crate::agents::AgentTable;
use crate::assoc::Assoc;
use crate::clock::Moment;
use crate::dispatch_modal::{DispatchModal, DispatchOutcome};
use crate::mesh::{
    active_order, is_active, is_active_order, positions, RemoteActivity, RemoteFreshness,
    RemoteSurfaceState,
};
use crate::numeral::{decimal, decimal_string};
use crate::order::{sort_dedup, strictly_sorted};
use crate::peek_view::PeekState;
use crate::screen::{lowercase, to_lowercase, ScreenInsights};
use crate::search::{contains, has_text, holds_char, rfind, rfind_in, starts, starts_with};
use crate::surface::{SurfaceInfo, SurfaceKind};
use crate::tasks::{WorkspaceBeadsView, WorkspaceLinearView};
use crate::text::{
    ascii_lowered, chars_of, clone_strings, concat2, lemma_views_push, lower_ascii, opt_view, same,
    string_from, string_of, views,
};
use crate::trajectory::TrajectoryDoc;
use crate::trajectory_edit::TrajectoryEditState;
use vstd::prelude::*;

verus! {

// ---------------------------------------------------------------------------
// Types
// ---------------------------------------------------------------------------

/// A workspace of the terminal multiplexer.
#[derive(Debug, Clone, PartialEq, Eq)]
pub struct Workspace {
    pub window_id: Option<String>,
    pub window_ref: Option<String>,
    pub ref_id: String,
    pub uuid: String,
    pub name: String,
    pub description: Option<String>,
    pub current_directory: Option<String>,
    pub custom_color: Option<String>,
}

/// What stands before the text of a session file.
#[derive(Debug, Clone, PartialEq, Eq)]
pub struct SessionFrontmatter {
    pub workspace_id: Option<String>,
    pub agent: Option<String>,
    pub host: Option<String>,
    pub topic: Option<String>,
}

/// A session file.
#[derive(Debug, Clone, PartialEq, Eq)]
pub struct SessionFile {
    pub path: String,
    pub frontmatter: SessionFrontmatter,
    pub trajectory: Option<String>,
    pub bullets: Vec<String>,
    pub next_steps: Vec<String>,
}

/// A generated summary.
#[derive(Debug, PartialEq, Eq)]
pub struct Summary {
    pub trajectory: String,
    pub next_steps: Vec<String>,
}

/// `b` says what `a` says.
pub open spec fn same_summary(a: Summary, b: Summary) -> bool {
    b.trajectory == a.trajectory && b.next_steps@ == a.next_steps@
}

impl Clone for Summary {
    fn clone(&self) -> (r: Self)
        ensures
            same_summary(*self, r),
    {
        Summary {
            trajectory: self.trajectory.clone(),
            next_steps: clone_strings(&self.next_steps),
        }
    }
}

/// The contract of an agent's turn, when it is worth showing.
#[derive(Debug, Clone, PartialEq, Eq)]
pub struct TurnContract {
    pub text: String,
}

/// A session's state as the agent's hooks wrote it. Times are nanoseconds since
/// the epoch.
#[derive(Debug, PartialEq, Eq)]
pub struct MuxSessionState {
    pub session_id: String,
    pub agent: String,
    pub updated_at: i64,
    pub last_event: String,
    pub working: bool,
    pub ended_turn: bool,
    pub contract: Option<TurnContract>,
}

impl Clone for MuxSessionState {
    fn clone(&self) -> (r: Self)
        ensures
            r == *self,
    {
        MuxSessionState {
            session_id: self.session_id.clone(),
            agent: self.agent.clone(),
            updated_at: self.updated_at,
            last_event: self.last_event.clone(),
            working: self.working,
            ended_turn: self.ended_turn,
            contract: match &self.contract {
                Some(c) => Some(TurnContract { text: c.text.clone() }),
                None => None,
            },
        }
    }
}

/// A classifier's verdict on a screen, and whether it is confident enough.
#[derive(Debug, Clone, PartialEq, Eq)]
pub struct ScreenClassification {
    pub state: String,
    pub confident: bool,
}

/// Per-workspace state of the trajectory regeneration scheduler.
#[derive(Debug, Clone, Copy, PartialEq, Eq, Structural)]
pub struct RegenSchedulerState {
    /// When the last successful regeneration completed.
    pub last_regen_at: Option<Moment>,
    /// Tool calls since then.
    pub events_since_last_regen: u32,
    /// A regeneration is under way.
    pub regen_in_flight: bool,
}

impl Default for RegenSchedulerState {
    fn default() -> (r: Self)
        ensures
            r == (RegenSchedulerState {
                last_regen_at: None,
                events_since_last_regen: 0,
                regen_in_flight: false,
            }),
    {
        RegenSchedulerState {
            last_regen_at: None,
            events_since_last_regen: 0,
            regen_in_flight: false,
        }
    }
}

/// Per-workspace dismissal tracking.
#[derive(Debug, Clone, Copy, PartialEq, Eq, Structural)]
pub struct DismissalState {
    /// Open surfaces of the workspace.
    pub open_surfaces: u32,
    /// When the last surface was closed.
    pub grace_started_at: Option<Moment>,
    /// The dismissal is under way.
    pub dismissing: bool,
}

impl Default for DismissalState {
    fn default() -> (r: Self)
        ensures
            r == (DismissalState { open_surfaces: 0, grace_started_at: None, dismissing: false }),
    {
        DismissalState { open_surfaces: 0, grace_started_at: None, dismissing: false }
    }
}

/// Everything that the dashboard keeps for one workspace.
#[derive(Debug)]
pub struct WorkspaceState {
    pub workspace: Workspace,
    pub session: Option<SessionFile>,
    pub surfaces: Vec<SurfaceInfo>,
    /// Remote sessions by the surface that they are bound to.
    pub remote_surfaces: Assoc<RemoteSurfaceState>,
    pub screen_preview: Option<String>,
    pub screen_insights: ScreenInsights,
    pub tool_call_count: u32,
    /// Notes that the user keeps for the workspace.
    pub notes: Option<String>,
    pub mux_status: Option<MuxSessionState>,
    pub classification: Option<ScreenClassification>,
    /// A screen refresh is under way.
    pub loading: bool,
    pub summary: Option<Summary>,
    pub beads: Option<WorkspaceBeadsView>,
    /// The Linear projection; when present it takes precedence over Beads.
    pub linear: Option<WorkspaceLinearView>,
    /// The issue that the user asked to open.
    pub linear_open_pending: Option<String>,
    /// A summary is being generated.
    pub summarizing: bool,
    pub trajectory: Option<TrajectoryDoc>,
    pub edit_state: Option<TrajectoryEditState>,
    /// A checked mission waits to change places.
    pub missions_pending: bool,
    pub peek_state: Option<PeekState>,
    /// The user asked to leave peek mode for the workspace itself.
    pub peek_yield_pending: bool,
    pub regen: RegenSchedulerState,
    pub dismissal: DismissalState,
    pub dispatch_modal: Option<DispatchModal>,
    pub dispatch_pending_outcome: Option<DispatchOutcome>,
    /// Why the last dispatch failed, until the next key press.
    pub dispatch_error: Option<String>,
}

/// Which pane the keys go to.
#[derive(Debug, Clone, Copy, PartialEq, Eq, Structural)]
pub enum Focus {
    Sidebar,
    Detail,
}

/// Is the agent at work, or does it wait for the user?
#[derive(Debug, Clone, Copy, PartialEq, Eq, Structural)]
pub enum AgentState {
    /// The agent is at work.
    Working,
    /// The agent is done or blocked and needs the user.
    NeedsMe,
    /// Nothing is happening.
    Idle,
    /// A bound remote session is known but its state is not current.
    Stale,
}

impl AgentState {
    /// The state in words.
    pub open spec fn label_spec(self) -> Seq<char> {
        match self {
            AgentState::Working => "working"@,
            AgentState::NeedsMe => "waiting"@,
            AgentState::Idle => "--"@,
            AgentState::Stale => "offline"@,
        }
    }

    /// The state in words.
    pub fn label(&self) -> (r: &'static str)
        ensures
            r@ == self.label_spec(),
    {
        match self {
            AgentState::Working => "working",
            AgentState::NeedsMe => "waiting",
            AgentState::Idle => "--",
            AgentState::Stale => "offline",
        }
    }
}

// ---------------------------------------------------------------------------
// Surface titles
// ---------------------------------------------------------------------------

/// The directory that a title like `blin@host:~/Projects` or `~/Projects` names.
pub open spec fn dir_in(t: Seq<char>) -> Option<Seq<char>> {
    if t.contains(':') && (has_text(t, "~/"@) || has_text(t, ":/"@)) {
        match rfind(t, ":"@) {
            Some(i) => Some(t.skip(i + 1)),
            None => None,
        }
    } else if starts_with(t, "~/"@) || starts_with(t, "…/"@) {
        Some(t)
    } else {
        None
    }
}

/// The directory that a title names.
pub fn dir_in_title(title: &str) -> (r: Option<String>)
    ensures
        opt_view(r) == dir_in(title@),
{
    let v = chars_of(title);
    let n: usize = v.len();
    proof {
        reveal_strlit(":");
    }
    if holds_char(&v, ':') && (contains(&v, "~/") || contains(&v, ":/")) {
        match rfind_in(&v, ":") {
            Some(i) => {
                let r = string_of(&v, i + 1, n);
                assert(r@ =~= v@.skip(i + 1));
                Some(r)
            },
            None => None,
        }
    } else if starts(&v, "~/") || starts(&v, "…/") {
        Some(String::from_str(title))
    } else {
        None
    }
}

/// The end of the run at `i` of characters other than `c`.
pub open spec fn until(s: Seq<char>, c: char, i: int) -> int
    decreases s.len() - i,
{
    if 0 <= i < s.len() && s[i] != c {
        until(s, c, i + 1)
    } else {
        i
    }
}

/// The host that a title like `blin@blin-labs:~` names, unless it is the local
/// machine.
pub open spec fn host_in(t: Seq<char>) -> Option<Seq<char>> {
    if t.contains('@') && t.contains(':') {
        let from = until(t, '@', 0) + 1;
        let part = t.subrange(from, until(t, '@', from));
        let host = part.take(until(part, ':', 0));
        if has_text(host, "mbp"@) || has_text(host, "local"@) {
            None
        } else {
            Some(host)
        }
    } else {
        None
    }
}

fn until_index(v: &Vec<char>, c: char, from: usize) -> (r: usize)
    requires
        from <= v@.len(),
    ensures
        r == until(v@, c, from as int),
        from <= r <= v@.len(),
        r < v@.len() ==> v@[r as int] == c,
        forall|k: int| from <= k < r ==> v@[k] != c,
{
    let mut i: usize = from;
    while i < v.len() && v[i] != c
        invariant
            from <= i <= v@.len(),
            until(v@, c, from as int) == until(v@, c, i as int),
            forall|k: int| from <= k < i ==> v@[k] != c,
        decreases v@.len() - i,
    {
        i += 1;
    }
    i
}

/// The host that a title names.
pub fn host_in_title(title: &str) -> (r: Option<String>)
    ensures
        opt_view(r) == host_in(title@),
{
    let v = chars_of(title);
    if !(holds_char(&v, '@') && holds_char(&v, ':')) {
        return None;
    }
    let at: usize = until_index(&v, '@', 0);
    let from: usize = at + 1;
    let to: usize = until_index(&v, '@', from);
    let part = crate::text::slice_chars(&v, from, to);
    let end: usize = until_index(&part, ':', 0);
    let host = crate::text::slice_chars(&part, 0, end);
    assert(host@ =~= part@.take(end as int));
    if contains(&host, "mbp") || contains(&host, "local") {
        None
    } else {
        Some(string_from(&host))
    }
}

// ---------------------------------------------------------------------------
// Derived state
// ---------------------------------------------------------------------------

/// A surface shows a local agent: it is not bound to a remote session, and its
/// kind or title says so.
pub open spec fn shows_agent(
    s: SurfaceInfo,
    remotes: Assoc<RemoteSurfaceState>,
    agents: AgentTable,
) -> bool {
    !remotes.has_key(s.ref_id@) && (s.kind.is_agent_spec() || agents.named(ascii_lowered(s.title@)) is Some)
}

/// The agent named by the first local surface at or after `i` that names one.
pub open spec fn titled_agent(
    surfaces: Seq<SurfaceInfo>,
    remotes: Assoc<RemoteSurfaceState>,
    agents: AgentTable,
    i: int,
) -> Option<Seq<char>>
    decreases surfaces.len() - i,
{
    if i < 0 || i >= surfaces.len() {
        None
    } else if !remotes.has_key(surfaces[i].ref_id@) && agents.named(lowercase(surfaces[i].title@)) is Some {
        agents.named(lowercase(surfaces[i].title@))
    } else {
        titled_agent(surfaces, remotes, agents, i + 1)
    }
}

/// The directory named by the first surface at or after `i` that names one.
pub open spec fn titled_dir(surfaces: Seq<SurfaceInfo>, i: int) -> Option<Seq<char>>
    decreases surfaces.len() - i,
{
    if i < 0 || i >= surfaces.len() {
        None
    } else if dir_in(surfaces[i].title@) is Some {
        dir_in(surfaces[i].title@)
    } else {
        titled_dir(surfaces, i + 1)
    }
}

/// The host named by the first surface at or after `i` that names one.
pub open spec fn titled_host(surfaces: Seq<SurfaceInfo>, i: int) -> Option<Seq<char>>
    decreases surfaces.len() - i,
{
    if i < 0 || i >= surfaces.len() {
        None
    } else if host_in(surfaces[i].title@) is Some {
        host_in(surfaces[i].title@)
    } else {
        titled_host(surfaces, i + 1)
    }
}

/// The agent of the first remote session in `order`, from position `k`, that has
/// one.
pub open spec fn remote_agent(
    s: Seq<(String, RemoteSurfaceState)>,
    order: Seq<int>,
    k: int,
) -> Option<Seq<char>>
    decreases order.len() - k,
{
    if k < 0 || k >= order.len() {
        None
    } else if s[order[k]].1.agent is Some {
        opt_view(s[order[k]].1.agent)
    } else {
        remote_agent(s, order, k + 1)
    }
}

/// The directory of the first remote session in `order`, from position `k`, that
/// has one.
pub open spec fn remote_dir(
    s: Seq<(String, RemoteSurfaceState)>,
    order: Seq<int>,
    k: int,
) -> Option<Seq<char>>
    decreases order.len() - k,
{
    if k < 0 || k >= order.len() {
        None
    } else if s[order[k]].1.launch_cwd is Some {
        opt_view(s[order[k]].1.launch_cwd)
    } else {
        remote_dir(s, order, k + 1)
    }
}

/// A current remote session has the given activity.
pub open spec fn fresh_with(s: Seq<(String, RemoteSurfaceState)>, a: RemoteActivity) -> bool {
    exists|i: int|
        0 <= i < s.len() && (#[trigger] s[i]).1.freshness == RemoteFreshness::Fresh
            && s[i].1.activity_spec() == a
}

/// A remote session is known whose state is not current.
pub open spec fn some_stale(s: Seq<(String, RemoteSurfaceState)>) -> bool {
    exists|i: int|
        0 <= i < s.len() && ((#[trigger] s[i]).1.freshness == RemoteFreshness::Syncing
            || s[i].1.freshness == RemoteFreshness::Stale)
}

/// An active remote session runs on device `d`.
pub open spec fn runs_on(s: Seq<(String, RemoteSurfaceState)>, d: Seq<char>) -> bool {
    exists|i: int|
        0 <= i < s.len() && is_active(#[trigger] s[i]) && s[i].1.locator.device_id@ == d
}

/// `devices` lists the devices of the active remote sessions, in order.
pub open spec fn is_device_list(
    s: Seq<(String, RemoteSurfaceState)>,
    devices: Seq<Seq<char>>,
) -> bool {
    strictly_sorted(devices) && forall|d: Seq<char>| devices.contains(d) <==> #[trigger] runs_on(s, d)
}

impl WorkspaceState {
    /// Some remote session of the workspace is not gone.
    pub open spec fn remote_active(self) -> bool {
        exists|i: int|
            0 <= i < self.remote_surfaces.entries@.len() && is_active(
                #[trigger] self.remote_surfaces.entries@[i],
            )
    }

    /// Some surface shows a local agent.
    pub open spec fn local_agent(self, agents: AgentTable) -> bool {
        exists|i: int|
            0 <= i < self.surfaces@.len() && shows_agent(
                #[trigger] self.surfaces@[i],
                self.remote_surfaces,
                agents,
            )
    }

    /// What is known of the workspace as a whole describes a local agent.
    pub open spec fn local_facts_apply(self, agents: AgentTable) -> bool {
        !self.remote_active() || self.local_agent(agents)
    }

    /// Some surface is a remote client.
    pub open spec fn has_remote_client(self) -> bool {
        exists|i: int|
            0 <= i < self.surfaces@.len() && (#[trigger] self.surfaces@[i]).kind
                == SurfaceKind::Remote
    }

    /// Some remote client is not bound to a known session.
    pub open spec fn has_unbound_client(self) -> bool {
        exists|i: int|
            0 <= i < self.surfaces@.len() && (#[trigger] self.surfaces@[i]).kind
                == SurfaceKind::Remote && !self.remote_surfaces.has_key(self.surfaces@[i].ref_id@)
    }

    fn has_active_remote_surfaces(&self) -> (r: bool)
        ensures
            r == self.remote_active(),
    {
        let mut i: usize = 0;
        while i < self.remote_surfaces.entries.len()
            invariant
                i <= self.remote_surfaces.entries@.len(),
                forall|k: int|
                    0 <= k < i ==> !is_active(#[trigger] self.remote_surfaces.entries@[k]),
            decreases self.remote_surfaces.entries@.len() - i,
        {
            if self.remote_surfaces.entries[i].1.freshness != RemoteFreshness::Gone {
                assert(is_active(self.remote_surfaces.entries@[i as int]));
                return true;
            }
            i += 1;
        }
        false
    }

    fn has_local_agent_surface(&self, agents: &AgentTable) -> (r: bool)
        ensures
            r == self.local_agent(*agents),
    {
        let mut i: usize = 0;
        while i < self.surfaces.len()
            invariant
                i <= self.surfaces@.len(),
                forall|k: int|
                    0 <= k < i ==> !shows_agent(
                        #[trigger] self.surfaces@[k],
                        self.remote_surfaces,
                        *agents,
                    ),
            decreases self.surfaces@.len() - i,
        {
            let s = &self.surfaces[i];
            if !self.remote_surfaces.contains_key(s.ref_id.as_str()) && (s.kind.is_agent()
                || agents.agent_in_title(lower_ascii(s.title.as_str()).as_str()).is_some()) {
                assert(shows_agent(self.surfaces@[i as int], self.remote_surfaces, *agents));
                return true;
            }
            i += 1;
        }
        false
    }

    /// Whether the workspace is a window onto a remote host.
    pub fn is_remote(&self) -> (r: bool)
        ensures
            r == (self.remote_active() || self.has_remote_client()),
    {
        if self.has_active_remote_surfaces() {
            return true;
        }
        let mut i: usize = 0;
        while i < self.surfaces.len()
            invariant
                i <= self.surfaces@.len(),
                !self.remote_active(),
                forall|k: int|
                    0 <= k < i ==> (#[trigger] self.surfaces@[k]).kind != SurfaceKind::Remote,
            decreases self.surfaces@.len() - i,
        {
            if self.surfaces[i].kind == SurfaceKind::Remote {
                return true;
            }
            i += 1;
        }
        false
    }

    /// Whether the screen has to tell what a remote client is doing: only for
    /// clients that are not bound to a known session.
    pub fn needs_remote_screen_inference(&self) -> (r: bool)
        ensures
            r == self.has_unbound_client(),
    {
        let mut i: usize = 0;
        while i < self.surfaces.len()
            invariant
                i <= self.surfaces@.len(),
                forall|k: int|
                    0 <= k < i ==> !((#[trigger] self.surfaces@[k]).kind == SurfaceKind::Remote
                        && !self.remote_surfaces.has_key(self.surfaces@[k].ref_id@)),
            decreases self.surfaces@.len() - i,
        {
            if self.surfaces[i].kind == SurfaceKind::Remote && !self.remote_surfaces.contains_key(
                self.surfaces[i].ref_id.as_str(),
            ) {
                return true;
            }
            i += 1;
        }
        false
    }

    /// The turn contract of the workspace's own session.
    pub fn turn_contract(&self, agents: &AgentTable) -> (r: Option<&TurnContract>)
        ensures
            match r {
                Some(c) => self.local_facts_apply(*agents) && self.mux_status is Some
                    && self.mux_status.unwrap().contract == Some(*c),
                None => !self.local_facts_apply(*agents) || (match self.mux_status {
                    Some(s) => s.contract is None,
                    None => true,
                }),
            },
    {
        if self.has_active_remote_surfaces() && !self.has_local_agent_surface(agents) {
            return None;
        }
        match &self.mux_status {
            Some(s) => s.contract.as_ref(),
            None => None,
        }
    }

    /// The name of the local agent, from the session's state, its file, the
    /// screen or the surface titles.
    pub open spec fn local_agent_name(self, agents: AgentTable) -> Option<Seq<char>> {
        if self.mux_status matches Some(m) && m.agent@.len() > 0 {
            Some(self.mux_status.unwrap().agent@)
        } else if self.session matches Some(f) && f.frontmatter.agent is Some {
            opt_view(self.session.unwrap().frontmatter.agent)
        } else if self.screen_insights.agent is Some {
            opt_view(self.screen_insights.agent)
        } else {
            titled_agent(self.surfaces@, self.remote_surfaces, agents, 0)
        }
    }

    /// The agent's name, given the order of the remote sessions.
    pub open spec fn agent_name_spec(self, agents: AgentTable, order: Seq<int>) -> Seq<char> {
        let remote = match remote_agent(self.remote_surfaces.entries@, order, 0) {
            Some(a) => a,
            None => ""@,
        };
        if self.local_facts_apply(agents) {
            match self.local_agent_name(agents) {
                Some(a) => a,
                None => remote,
            }
        } else {
            remote
        }
    }

    fn find_titled_agent<'a>(&self, agents: &'a AgentTable) -> (r: Option<&'a str>)
        ensures
            (match r {
                Some(s) => Some(s@),
                None => None,
            }) == titled_agent(self.surfaces@, self.remote_surfaces, *agents, 0),
    {
        let mut i: usize = 0;
        while i < self.surfaces.len()
            invariant
                i <= self.surfaces@.len(),
                titled_agent(self.surfaces@, self.remote_surfaces, *agents, 0) == titled_agent(
                    self.surfaces@,
                    self.remote_surfaces,
                    *agents,
                    i as int,
                ),
            decreases self.surfaces@.len() - i,
        {
            let s = &self.surfaces[i];
            if !self.remote_surfaces.contains_key(s.ref_id.as_str()) {
                let named = agents.agent_in_title(to_lowercase(s.title.as_str()).as_str());
                if named.is_some() {
                    return named;
                }
            }
            i += 1;
        }
        None
    }

    /// The agent's name: what is known locally, else the first remote session
    /// in the stable order that names one.
    pub fn agent_name(&self, agents: &AgentTable) -> (r: String)
        requires
            self.remote_surfaces.well_formed(),
        ensures
            exists|order: Seq<int>| #[trigger]
                is_active_order(self.remote_surfaces.entries@, order) && r@ == self.agent_name_spec(*agents, 
                    order,
                ),
    {
        let order = active_order(&self.remote_surfaces);
        let ghost o = positions(order@);
        if !self.has_active_remote_surfaces() || self.has_local_agent_surface(agents) {
            if let Some(status) = &self.mux_status {
                if status.agent.as_str().unicode_len() > 0 {
                    assert(status.agent@ == self.agent_name_spec(*agents, o));
                    return status.agent.clone();
                }
            }
            if let Some(session) = &self.session {
                if let Some(agent) = &session.frontmatter.agent {
                    assert(agent@ == self.agent_name_spec(*agents, o));
                    return agent.clone();
                }
            }
            if let Some(agent) = &self.screen_insights.agent {
                assert(agent@ == self.agent_name_spec(*agents, o));
                return agent.clone();
            }
            if let Some(name) = self.find_titled_agent(agents) {
                let s = String::from_str(name);
                assert(s@ == self.agent_name_spec(*agents, o));
                return s;
            }
        }
        let mut k: usize = 0;
        while k < order.len()
            invariant
                k <= order@.len(),
                o == positions(order@),
                is_active_order(self.remote_surfaces.entries@, o),
                forall|j: int|
                    0 <= j < order@.len() ==> (#[trigger] order@[j])
                        < self.remote_surfaces.entries@.len(),
                self.local_facts_apply(*agents) ==> self.local_agent_name(*agents) is None,
                remote_agent(self.remote_surfaces.entries@, o, 0) == remote_agent(
                    self.remote_surfaces.entries@,
                    o,
                    k as int,
                ),
            decreases order@.len() - k,
        {
            assert(o[k as int] == order@[k as int] as int);
            if let Some(agent) = &self.remote_surfaces.entries[order[k]].1.agent {
                assert(agent@ == self.agent_name_spec(*agents, o));
                return agent.clone();
            }
            k += 1;
        }
        let r = String::from_str("");
        assert(r@ == self.agent_name_spec(*agents, o));
        r
    }

    /// The working directory, given the order of the remote sessions.
    pub open spec fn working_dir_spec(self, agents: AgentTable, order: Seq<int>) -> Seq<char> {
        let titled = match titled_dir(self.surfaces@, 0) {
            Some(d) => d,
            None => ""@,
        };
        if self.local_facts_apply(agents) {
            match self.screen_insights.working_dir {
                Some(d) => d@,
                None => titled,
            }
        } else {
            match remote_dir(self.remote_surfaces.entries@, order, 0) {
                Some(d) => d,
                None => titled,
            }
        }
    }

    fn find_titled_dir(&self) -> (r: Option<String>)
        ensures
            opt_view(r) == titled_dir(self.surfaces@, 0),
    {
        let mut i: usize = 0;
        while i < self.surfaces.len()
            invariant
                i <= self.surfaces@.len(),
                titled_dir(self.surfaces@, 0) == titled_dir(self.surfaces@, i as int),
            decreases self.surfaces@.len() - i,
        {
            let d = dir_in_title(self.surfaces[i].title.as_str());
            if d.is_some() {
                return d;
            }
            i += 1;
        }
        None
    }

    /// The working directory: from the screen, from the first remote session
    /// that has one, or from the surface titles.
    pub fn working_dir(&self, agents: &AgentTable) -> (r: String)
        requires
            self.remote_surfaces.well_formed(),
        ensures
            exists|order: Seq<int>| #[trigger]
                is_active_order(self.remote_surfaces.entries@, order) && r@
                    == self.working_dir_spec(*agents, order),
    {
        let order = active_order(&self.remote_surfaces);
        let ghost o = positions(order@);
        if !self.has_active_remote_surfaces() || self.has_local_agent_surface(agents) {
            if let Some(d) = &self.screen_insights.working_dir {
                assert(d@ == self.working_dir_spec(*agents, o));
                return d.clone();
            }
        } else {
            let mut k: usize = 0;
            while k < order.len()
                invariant
                    k <= order@.len(),
                    o == positions(order@),
                    !self.local_facts_apply(*agents),
                    is_active_order(self.remote_surfaces.entries@, o),
                    forall|j: int|
                        0 <= j < order@.len() ==> (#[trigger] order@[j])
                            < self.remote_surfaces.entries@.len(),
                    remote_dir(self.remote_surfaces.entries@, o, 0) == remote_dir(
                        self.remote_surfaces.entries@,
                        o,
                        k as int,
                    ),
                decreases order@.len() - k,
            {
                assert(o[k as int] == order@[k as int] as int);
                if let Some(d) = &self.remote_surfaces.entries[order[k]].1.launch_cwd {
                    assert(d@ == self.working_dir_spec(*agents, o));
                    return d.clone();
                }
                k += 1;
            }
        }
        let r = match self.find_titled_dir() {
            Some(d) => d,
            None => String::from_str(""),
        };
        assert(r@ == self.working_dir_spec(*agents, o));
        r
    }

    /// The state of the local agent: the session's own state decides, then a
    /// confident classification, then the activity on the screen, then whether
    /// there is an agent at all.
    pub open spec fn local_state(self, agents: AgentTable) -> AgentState {
        let local = self.local_facts_apply(agents);
        if local && self.mux_status is Some {
            let s = self.mux_status.unwrap();
            if s.working {
                AgentState::Working
            } else if s.ended_turn || s.last_event@ == "notification"@ {
                AgentState::NeedsMe
            } else {
                AgentState::Idle
            }
        } else if local && self.classification is Some && self.classification.unwrap().confident {
            let c = self.classification.unwrap();
            if c.state@ == "working"@ {
                AgentState::Working
            } else if c.state@ == "waiting"@ {
                AgentState::NeedsMe
            } else {
                AgentState::Idle
            }
        } else if local && self.screen_insights.activity is Some {
            let a = self.screen_insights.activity.unwrap()@;
            if a.contains('…') || a.contains('(') {
                AgentState::Working
            } else {
                AgentState::NeedsMe
            }
        } else if self.local_agent(agents) {
            AgentState::NeedsMe
        } else {
            AgentState::Idle
        }
    }

    fn local_agent_state(&self, agents: &AgentTable) -> (r: AgentState)
        ensures
            r == self.local_state(*agents),
    {
        let agent = self.has_local_agent_surface(agents);
        let local = !self.has_active_remote_surfaces() || agent;
        if local {
            if let Some(status) = &self.mux_status {
                if status.working {
                    return AgentState::Working;
                }
                if status.ended_turn || same(status.last_event.as_str(), "notification") {
                    return AgentState::NeedsMe;
                }
                return AgentState::Idle;
            }
            if let Some(c) = &self.classification {
                if c.confident {
                    if same(c.state.as_str(), "working") {
                        return AgentState::Working;
                    }
                    if same(c.state.as_str(), "waiting") {
                        return AgentState::NeedsMe;
                    }
                    return AgentState::Idle;
                }
            }
            if let Some(a) = &self.screen_insights.activity {
                let v = chars_of(a.as_str());
                if holds_char(&v, '…') || holds_char(&v, '(') {
                    return AgentState::Working;
                }
                return AgentState::NeedsMe;
            }
        }
        if agent {
            AgentState::NeedsMe
        } else {
            AgentState::Idle
        }
    }

    /// The state of all agents of the workspace: whatever needs the user wins,
    /// then work, then a session that is out of touch.
    pub open spec fn state_spec(self, agents: AgentTable) -> AgentState {
        let s = self.remote_surfaces.entries@;
        if self.local_state(agents) == AgentState::NeedsMe || fresh_with(s, RemoteActivity::Actionable) {
            AgentState::NeedsMe
        } else if self.local_state(agents) == AgentState::Working || fresh_with(
            s,
            RemoteActivity::Working,
        ) {
            AgentState::Working
        } else if some_stale(s) {
            AgentState::Stale
        } else {
            AgentState::Idle
        }
    }

    /// The state of all agents of the workspace.
    pub fn agent_state(&self, agents: &AgentTable) -> (r: AgentState)
        ensures
            r == self.state_spec(*agents),
    {
        let local = self.local_agent_state(agents);
        let ghost s = self.remote_surfaces.entries@;
        let mut actionable = false;
        let mut working = false;
        let mut stale = false;
        let mut i: usize = 0;
        while i < self.remote_surfaces.entries.len()
            invariant
                i <= s.len(),
                s == self.remote_surfaces.entries@,
                actionable == fresh_with(s.take(i as int), RemoteActivity::Actionable),
                working == fresh_with(s.take(i as int), RemoteActivity::Working),
                stale == some_stale(s.take(i as int)),
            decreases s.len() - i,
        {
            let remote = &self.remote_surfaces.entries[i].1;
            let ghost seen = s.take(i as int);
            let ghost now = s.take(i + 1);
            proof {
                assert(now =~= seen.push(s[i as int]));
                lemma_fresh_push(seen, s[i as int], RemoteActivity::Actionable);
                lemma_fresh_push(seen, s[i as int], RemoteActivity::Working);
                lemma_stale_push(seen, s[i as int]);
            }
            match remote.freshness {
                RemoteFreshness::Fresh => match remote.activity() {
                    RemoteActivity::Actionable => {
                        actionable = true;
                    },
                    RemoteActivity::Working => {
                        working = true;
                    },
                    RemoteActivity::Idle => {},
                },
                RemoteFreshness::Syncing | RemoteFreshness::Stale => {
                    stale = true;
                },
                RemoteFreshness::Gone => {},
            }
            i += 1;
        }
        assert(s.take(s.len() as int) =~= s);
        if local == AgentState::NeedsMe || actionable {
            AgentState::NeedsMe
        } else if local == AgentState::Working || working {
            AgentState::Working
        } else if stale {
            AgentState::Stale
        } else {
            AgentState::Idle
        }
    }

    /// The host's name, given the devices of the active remote sessions.
    pub open spec fn host_name_spec(self, devices: Seq<Seq<char>>) -> Seq<char> {
        if devices.len() == 1 {
            devices[0]
        } else if devices.len() > 1 {
            "remote×"@ + decimal(devices.len())
        } else if self.session matches Some(f) && f.frontmatter.host is Some {
            self.session.unwrap().frontmatter.host.unwrap()@
        } else {
            match titled_host(self.surfaces@, 0) {
                Some(h) => h,
                None => ""@,
            }
        }
    }

    fn active_devices(&self) -> (r: Vec<String>)
        ensures
            is_device_list(self.remote_surfaces.entries@, views(r@)),
    {
        let ghost s = self.remote_surfaces.entries@;
        let mut all: Vec<String> = Vec::new();
        let mut i: usize = 0;
        assert forall|d: Seq<char>| views(all@).contains(d) <==> #[trigger] runs_on(
            s.take(0),
            d,
        ) by {};
        while i < self.remote_surfaces.entries.len()
            invariant
                i <= s.len(),
                s == self.remote_surfaces.entries@,
                forall|d: Seq<char>|
                    views(all@).contains(d) <==> #[trigger] runs_on(s.take(i as int), d),
            decreases s.len() - i,
        {
            let e = &self.remote_surfaces.entries[i];
            let ghost before = views(all@);
            let ghost seen = s.take(i as int);
            let ghost now = s.take(i + 1);
            assert(now =~= seen.push(s[i as int]));
            if e.1.freshness != RemoteFreshness::Gone {
                let d = e.1.locator.device_id.clone();
                proof {
                    lemma_views_push(all@, d);
                }
                all.push(d);
                assert forall|x: Seq<char>| views(all@).contains(x) <==> #[trigger] runs_on(
                    now,
                    x,
                ) by {
                    lemma_runs_on_push(seen, s[i as int], x);
                    lemma_contains_push(before, d@, x);
                }
            } else {
                assert forall|x: Seq<char>| views(all@).contains(x) <==> #[trigger] runs_on(
                    now,
                    x,
                ) by {
                    lemma_runs_on_push(seen, s[i as int], x);
                }
            }
            i += 1;
        }
        assert(s.take(s.len() as int) =~= s);
        sort_dedup(&all)
    }

    fn find_titled_host(&self) -> (r: Option<String>)
        ensures
            opt_view(r) == titled_host(self.surfaces@, 0),
    {
        let mut i: usize = 0;
        while i < self.surfaces.len()
            invariant
                i <= self.surfaces@.len(),
                titled_host(self.surfaces@, 0) == titled_host(self.surfaces@, i as int),
            decreases self.surfaces@.len() - i,
        {
            let h = host_in_title(self.surfaces[i].title.as_str());
            if h.is_some() {
                return h;
            }
            i += 1;
        }
        None
    }

    /// The host: the device of the active remote sessions, or how many there
    /// are, else what the session or the surface titles name.
    pub fn host_name(&self) -> (r: String)
        ensures
            exists|devices: Seq<Seq<char>>| #[trigger]
                is_device_list(self.remote_surfaces.entries@, devices) && r@
                    == self.host_name_spec(devices),
    {
        let devices = self.active_devices();
        let ghost d = views(devices@);
        assert(d.len() == devices@.len());
        if devices.len() == 1 {
            assert(d[0] == devices@[0]@);
            let r = devices[0].clone();
            assert(r@ == self.host_name_spec(d));
            return r;
        }
        if devices.len() > 1 {
            let r = concat2("remote×", decimal_string(devices.len()).as_str());
            assert(r@ == self.host_name_spec(d));
            return r;
        }
        if let Some(session) = &self.session {
            if let Some(host) = &session.frontmatter.host {
                assert(host@ == self.host_name_spec(d));
                return host.clone();
            }
        }
        let r = match self.find_titled_host() {
            Some(h) => h,
            None => String::from_str(""),
        };
        assert(r@ == self.host_name_spec(d));
        r
    }
}

proof fn lemma_fresh_push(
    s: Seq<(String, RemoteSurfaceState)>,
    e: (String, RemoteSurfaceState),
    a: RemoteActivity,
)
    ensures
        fresh_with(s.push(e), a) == (fresh_with(s, a) || (e.1.freshness == RemoteFreshness::Fresh
            && e.1.activity_spec() == a)),
{
    let t = s.push(e);
    if fresh_with(s, a) {
        let i = choose|i: int|
            0 <= i < s.len() && (#[trigger] s[i]).1.freshness == RemoteFreshness::Fresh
                && s[i].1.activity_spec() == a;
        assert(t[i] == s[i]);
    }
    if e.1.freshness == RemoteFreshness::Fresh && e.1.activity_spec() == a {
        assert(t[s.len() as int] == e);
    }
    if fresh_with(t, a) {
        let i = choose|i: int|
            0 <= i < t.len() && (#[trigger] t[i]).1.freshness == RemoteFreshness::Fresh
                && t[i].1.activity_spec() == a;
        if i < s.len() {
            assert(s[i] == t[i]);
        }
    }
}

proof fn lemma_stale_push(
    s: Seq<(String, RemoteSurfaceState)>,
    e: (String, RemoteSurfaceState),
)
    ensures
        some_stale(s.push(e)) == (some_stale(s) || e.1.freshness == RemoteFreshness::Syncing
            || e.1.freshness == RemoteFreshness::Stale),
{
    let t = s.push(e);
    if some_stale(s) {
        let i = choose|i: int|
            0 <= i < s.len() && ((#[trigger] s[i]).1.freshness == RemoteFreshness::Syncing
                || s[i].1.freshness == RemoteFreshness::Stale);
        assert(t[i] == s[i]);
    }
    assert(t[s.len() as int] == e);
    if some_stale(t) {
        let i = choose|i: int|
            0 <= i < t.len() && ((#[trigger] t[i]).1.freshness == RemoteFreshness::Syncing
                || t[i].1.freshness == RemoteFreshness::Stale);
        if i < s.len() {
            assert(s[i] == t[i]);
        }
    }
}

proof fn lemma_runs_on_push(
    s: Seq<(String, RemoteSurfaceState)>,
    e: (String, RemoteSurfaceState),
    d: Seq<char>,
)
    ensures
        runs_on(s.push(e), d) == (runs_on(s, d) || is_active(e) && e.1.locator.device_id@ == d),
{
    let t = s.push(e);
    if runs_on(s, d) {
        let i = choose|i: int|
            0 <= i < s.len() && is_active(#[trigger] s[i]) && s[i].1.locator.device_id@ == d;
        assert(t[i] == s[i]);
    }
    assert(t[s.len() as int] == e);
    if runs_on(t, d) {
        let i = choose|i: int|
            0 <= i < t.len() && is_active(#[trigger] t[i]) && t[i].1.locator.device_id@ == d;
        if i < s.len() {
            assert(s[i] == t[i]);
        }
    }
}

proof fn lemma_contains_push(s: Seq<Seq<char>>, x: Seq<char>, y: Seq<char>)
    ensures
        s.push(x).contains(y) == (s.contains(y) || x == y),
{
    let t = s.push(x);
    if s.contains(y) {
        let i = choose|i: int| 0 <= i < s.len() && s[i] == y;
        assert(t[i] == y);
    }
    assert(t[s.len() as int] == x);
    if t.contains(y) {
        let i = choose|i: int| 0 <= i < t.len() && t[i] == y;
        if i < s.len() {
            assert(s[i] == y);
        }
    }
}

/// The state of a workspace does not depend on remote sessions that are gone.
pub proof fn gone_sessions_do_not_count(
    s: Seq<(String, RemoteSurfaceState)>,
    e: (String, RemoteSurfaceState),
)
    requires
        e.1.freshness == RemoteFreshness::Gone,
    ensures
        fresh_with(s.push(e), RemoteActivity::Actionable) == fresh_with(
            s,
            RemoteActivity::Actionable,
        ),
        fresh_with(s.push(e), RemoteActivity::Working) == fresh_with(s, RemoteActivity::Working),
        some_stale(s.push(e)) == some_stale(s),
        forall|d: Seq<char>| #[trigger] runs_on(s.push(e), d) == runs_on(s, d),
{
    lemma_fresh_push(s, e, RemoteActivity::Actionable);
    lemma_fresh_push(s, e, RemoteActivity::Working);
    lemma_stale_push(s, e);
    assert forall|d: Seq<char>| #[trigger] runs_on(s.push(e), d) == runs_on(s, d) by {
        lemma_runs_on_push(s, e, d);
    }
}

} // verus!
