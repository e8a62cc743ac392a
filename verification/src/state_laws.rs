//! What is told of a workspace, said of its fields.
use crate::agents::{named_from, AgentProfile, AgentTable};
use crate::assoc::lemma_key_from;
use crate::mesh::{is_active_order, RemoteActivity, RemoteFreshness, RemoteSurfaceState};
use crate::numeral::decimal;
use crate::order::lex_less;
use crate::screen::lowercase;
use crate::search::{has_text, rfind};
use crate::surface::{SurfaceInfo, SurfaceKind};
use crate::text::{ascii_lowered, opt_view};
use crate::workspace::{
    dir_in, fresh_with, host_in, is_device_list, remote_agent, remote_dir, runs_on, some_stale,
    titled_agent, titled_dir, titled_host, until, AgentState, WorkspaceState,
};
use vstd::prelude::*;

verus! {

// ---------------------------------------------------------------------------
// Who is asked
// ---------------------------------------------------------------------------

/// The name of a known agent occurs in the text.
pub open spec fn names_an_agent(agents: AgentTable, lower: Seq<char>) -> bool {
    exists|k: int|
        0 <= k < agents.agents@.len() && has_text(lower, (#[trigger] agents.agents@[k]).name@)
}

proof fn lemma_named(s: Seq<AgentProfile>, lower: Seq<char>, i: int, k: int)
    requires
        0 <= i,
    ensures
        i <= k < s.len() && has_text(lower, s[k].name@) && (forall|j: int|
            i <= j < k ==> !has_text(lower, (#[trigger] s[j]).name@)) ==> named_from(s, lower, i)
            == Some(s[k].name@),
        named_from(s, lower, i) is Some <==> exists|j: int|
            i <= j < s.len() && has_text(lower, (#[trigger] s[j]).name@),
    decreases s.len() - i,
{
    if i < s.len() {
        lemma_named(s, lower, i + 1, k);
    }
}

/// A title names the first agent of the table whose name occurs in it, and none if no
/// name does.
pub proof fn a_title_names_the_first_agent_in_it(agents: AgentTable, lower: Seq<char>, k: int)
    ensures
        0 <= k < agents.agents@.len() && has_text(lower, agents.agents@[k].name@) && (forall|j: int|
            0 <= j < k ==> !has_text(lower, (#[trigger] agents.agents@[j]).name@)) ==> agents.named(
            lower,
        ) == Some(agents.agents@[k].name@),
        agents.named(lower) is Some <==> names_an_agent(agents, lower),
{
    lemma_named(agents.agents@, lower, 0, k);
}

/// A surface is bound to a remote session.
pub open spec fn is_bound(w: WorkspaceState, s: SurfaceInfo) -> bool {
    exists|i: int|
        0 <= i < w.remote_surfaces.entries@.len() && (
        #[trigger] w.remote_surfaces.entries@[i]).0@ == s.ref_id@
}

proof fn lemma_bound(w: WorkspaceState, s: SurfaceInfo)
    ensures
        is_bound(w, s) == w.remote_surfaces.has_key(s.ref_id@),
{
    lemma_key_from(w.remote_surfaces.entries@, s.ref_id@, 0);
}

/// The surface shows an agent of this machine.
pub open spec fn is_local_agent(w: WorkspaceState, agents: AgentTable, s: SurfaceInfo) -> bool {
    &&& !is_bound(w, s)
    &&& {
        ||| s.kind == SurfaceKind::Claude
        ||| s.kind == SurfaceKind::Codex
        ||| s.kind == SurfaceKind::OtherAgent
        ||| names_an_agent(agents, ascii_lowered(s.title@))
    }
}

/// Some surface shows an agent of this machine.
pub open spec fn has_local_agent(w: WorkspaceState, agents: AgentTable) -> bool {
    exists|i: int|
        0 <= i < w.surfaces@.len() && is_local_agent(w, agents, #[trigger] w.surfaces@[i])
}

/// Some remote session is not gone.
pub open spec fn has_remote(w: WorkspaceState) -> bool {
    exists|i: int|
        0 <= i < w.remote_surfaces.entries@.len() && (
        #[trigger] w.remote_surfaces.entries@[i]).1.freshness != RemoteFreshness::Gone
}

/// What is known of the workspace itself counts.
pub open spec fn is_local(w: WorkspaceState, agents: AgentTable) -> bool {
    !has_remote(w) || has_local_agent(w, agents)
}

proof fn lemma_local(w: WorkspaceState, agents: AgentTable)
    ensures
        has_local_agent(w, agents) == w.local_agent(agents),
        has_remote(w) == w.remote_active(),
        is_local(w, agents) == w.local_facts_apply(agents),
{
    assert forall|i: int| 0 <= i < w.surfaces@.len() implies is_local_agent(
        w,
        agents,
        #[trigger] w.surfaces@[i],
    ) == crate::workspace::shows_agent(w.surfaces@[i], w.remote_surfaces, agents) by {
        lemma_bound(w, w.surfaces@[i]);
        lemma_named(agents.agents@, ascii_lowered(w.surfaces@[i].title@), 0, 0);
    }
    assert forall|i: int| 0 <= i < w.remote_surfaces.entries@.len() implies (
    #[trigger] w.remote_surfaces.entries@[i]).1.freshness != RemoteFreshness::Gone
        == crate::mesh::is_active(w.remote_surfaces.entries@[i]) by {}
}

// ---------------------------------------------------------------------------
// State
// ---------------------------------------------------------------------------

/// A current remote session is in the given state.
pub open spec fn some_fresh(w: WorkspaceState, state: Seq<char>) -> bool {
    exists|i: int|
        0 <= i < w.remote_surfaces.entries@.len() && (
        #[trigger] w.remote_surfaces.entries@[i]).1.freshness == RemoteFreshness::Fresh && opt_view(
            w.remote_surfaces.entries@[i].1.state,
        ) == Some(state)
}

/// A remote session is known that is out of touch.
pub open spec fn some_out_of_touch(w: WorkspaceState) -> bool {
    exists|i: int|
        0 <= i < w.remote_surfaces.entries@.len() && {
            ||| (#[trigger] w.remote_surfaces.entries@[i]).1.freshness == RemoteFreshness::Syncing
            ||| w.remote_surfaces.entries@[i].1.freshness == RemoteFreshness::Stale
        }
}

proof fn lemma_remotes(w: WorkspaceState)
    ensures
        some_fresh(w, "waiting"@) == fresh_with(
            w.remote_surfaces.entries@,
            RemoteActivity::Actionable,
        ),
        some_fresh(w, "working"@) == fresh_with(w.remote_surfaces.entries@, RemoteActivity::Working),
        some_out_of_touch(w) == some_stale(w.remote_surfaces.entries@),
{
    reveal_strlit("waiting");
    reveal_strlit("working");
    assert("waiting"@[1] != "working"@[1]);
    let s = w.remote_surfaces.entries@;
    assert forall|i: int| 0 <= i < s.len() implies ((#[trigger] s[i]).1.activity_spec()
        == RemoteActivity::Actionable) == (opt_view(s[i].1.state) == Some("waiting"@)) by {}
    assert forall|i: int| 0 <= i < s.len() implies ((#[trigger] s[i]).1.activity_spec()
        == RemoteActivity::Working) == (opt_view(s[i].1.state) == Some("working"@)) by {}
}


/// Only the remote sessions count.
pub open spec fn shows_remotes(w: WorkspaceState, state: AgentState) -> bool {
    if some_fresh(w, "waiting"@) {
        state == AgentState::NeedsMe
    } else if some_fresh(w, "working"@) {
        state == AgentState::Working
    } else if some_out_of_touch(w) {
        state == AgentState::Stale
    } else {
        state == AgentState::Idle
    }
}

/// An activity with an ellipsis or an opening bracket is work; any other activity waits
/// for the user. That is so where neither the session itself nor a confident verdict says
/// otherwise.
pub proof fn a_running_activity_is_work(w: WorkspaceState, agents: AgentTable)
    requires
        w.remote_surfaces.entries@.len() == 0,
        w.mux_status is None,
        w.classification is Some ==> !w.classification.unwrap().confident,
        w.screen_insights.activity is Some,
    ensures
        w.screen_insights.activity.unwrap()@.contains('…') ==> w.state_spec(agents)
            == AgentState::Working,
        w.screen_insights.activity.unwrap()@.contains('(') ==> w.state_spec(agents)
            == AgentState::Working,
        !w.screen_insights.activity.unwrap()@.contains('…')
            && !w.screen_insights.activity.unwrap()@.contains('(') ==> w.state_spec(agents)
            == AgentState::NeedsMe,
{
    lemma_local(w, agents);
    lemma_remotes(w);
}

/// Beside remote sessions, too, an activity of the workspace's own agent counts: work
/// gives way only to what waits for the user, and a finished activity to nothing.
pub proof fn an_activity_counts_beside_remotes(w: WorkspaceState, agents: AgentTable)
    requires
        is_local(w, agents),
        w.mux_status is None,
        w.classification is Some ==> !w.classification.unwrap().confident,
        w.screen_insights.activity is Some,
    ensures
        w.screen_insights.activity.unwrap()@.contains('…')
            || w.screen_insights.activity.unwrap()@.contains('(') ==> w.state_spec(agents) == (
        if some_fresh(w, "waiting"@) {
            AgentState::NeedsMe
        } else {
            AgentState::Working
        }),
        !w.screen_insights.activity.unwrap()@.contains('…')
            && !w.screen_insights.activity.unwrap()@.contains('(') ==> w.state_spec(agents)
            == AgentState::NeedsMe,
{
    lemma_local(w, agents);
    lemma_remotes(w);
}

/// The session's own state decides before verdicts and the screen: work is work, an
/// ended turn or a notification waits for the user, and anything else leaves it to the
/// remote sessions.
pub proof fn the_sessions_own_state_decides(w: WorkspaceState, agents: AgentTable)
    requires
        is_local(w, agents),
        w.mux_status is Some,
    ensures
        ({
            let m = w.mux_status.unwrap();
            let state = w.state_spec(agents);
            &&& m.working ==> state == (if some_fresh(w, "waiting"@) {
                AgentState::NeedsMe
            } else {
                AgentState::Working
            })
            &&& !m.working && m.ended_turn ==> state == AgentState::NeedsMe
            &&& !m.working && m.last_event@ == "notification"@ ==> state == AgentState::NeedsMe
            &&& !m.working && !m.ended_turn && m.last_event@ != "notification"@ ==> shows_remotes(
                w,
                state,
            )
        }),
{
    lemma_local(w, agents);
    lemma_remotes(w);
}

/// A confident verdict on the screen decides where the session itself says nothing.
pub proof fn a_confident_verdict_decides(w: WorkspaceState, agents: AgentTable)
    requires
        is_local(w, agents),
        w.mux_status is None,
        w.classification is Some,
        w.classification.unwrap().confident,
    ensures
        ({
            let c = w.classification.unwrap().state@;
            let state = w.state_spec(agents);
            &&& c == "working"@ ==> state == (if some_fresh(w, "waiting"@) {
                AgentState::NeedsMe
            } else {
                AgentState::Working
            })
            &&& c == "waiting"@ ==> state == AgentState::NeedsMe
            &&& c != "working"@ && c != "waiting"@ ==> shows_remotes(w, state)
        }),
{
    reveal_strlit("waiting");
    reveal_strlit("working");
    assert("waiting"@[1] != "working"@[1]);
    lemma_local(w, agents);
    lemma_remotes(w);
}

/// An agent of which nothing else is known waits for the user; without one only the
/// remote sessions count.
pub proof fn a_silent_agent_waits(w: WorkspaceState, agents: AgentTable)
    requires
        w.mux_status is None,
        w.classification is Some ==> !w.classification.unwrap().confident,
        w.screen_insights.activity is None,
    ensures
        has_local_agent(w, agents) ==> w.state_spec(agents) == AgentState::NeedsMe,
        !has_local_agent(w, agents) ==> shows_remotes(w, w.state_spec(agents)),
{
    lemma_local(w, agents);
    lemma_remotes(w);
}

/// Where a remote session is known and no surface shows an agent of this machine, only
/// the remote sessions count, whatever the session, a verdict or the screen say.
pub proof fn a_remote_workspace_shows_its_sessions(w: WorkspaceState, agents: AgentTable)
    requires
        has_remote(w),
        !has_local_agent(w, agents),
    ensures
        shows_remotes(w, w.state_spec(agents)),
{
    lemma_local(w, agents);
    lemma_remotes(w);
}

/// A remote session that waits for the user is always shown.
pub proof fn a_waiting_session_is_always_shown(w: WorkspaceState, agents: AgentTable)
    requires
        some_fresh(w, "waiting"@),
    ensures
        w.state_spec(agents) == AgentState::NeedsMe,
{
    lemma_remotes(w);
}

/// The words for the states.
pub proof fn states_are_told_apart(a: AgentState, b: AgentState)
    ensures
        AgentState::Working.label_spec() == "working"@,
        AgentState::NeedsMe.label_spec() == "waiting"@,
        AgentState::Stale.label_spec() == "offline"@,
        AgentState::Idle.label_spec() == "--"@,
        a.label_spec() == b.label_spec() ==> a == b,
{
    reveal_strlit("working");
    reveal_strlit("waiting");
    reveal_strlit("offline");
    reveal_strlit("--");
    assert("waiting"@[1] != "working"@[1]);
    assert("offline"@[0] != "working"@[0]);
    assert("--"@.len() == 2);
}

// ---------------------------------------------------------------------------
// The order of remote sessions
// ---------------------------------------------------------------------------

/// One session is listed before another: those that wait for the user come first, then
/// those that work, then the others; among equals the surface decides.
pub open spec fn listed_before(
    a: (String, RemoteSurfaceState),
    b: (String, RemoteSurfaceState),
) -> bool {
    let waits = |e: (String, RemoteSurfaceState)| opt_view(e.1.state) == Some("waiting"@);
    let works = |e: (String, RemoteSurfaceState)| opt_view(e.1.state) == Some("working"@);
    if waits(a) != waits(b) {
        waits(a)
    } else if works(a) != works(b) {
        works(a)
    } else {
        lex_less(a.0@, b.0@)
    }
}

proof fn lemma_listed_before(a: (String, RemoteSurfaceState), b: (String, RemoteSurfaceState))
    ensures
        listed_before(a, b) == crate::mesh::precedes(a, b),
{
    reveal_strlit("waiting");
    reveal_strlit("working");
    assert("waiting"@[1] != "working"@[1]);
}

/// Texts are ordered by their first difference; a text comes after what it begins with.
pub proof fn the_first_difference_orders(p: Seq<char>, a: Seq<char>, b: Seq<char>)
    ensures
        b.len() > 0 ==> lex_less(p, p + b),
        !lex_less(p + b, p),
        a.len() > 0 && b.len() > 0 && a[0] < b[0] ==> lex_less(p + a, p + b) && !lex_less(
            p + b,
            p + a,
        ),
    decreases p.len(),
{
    if p.len() > 0 {
        let q = p.drop_first();
        the_first_difference_orders(q, a, b);
        assert((p + a).drop_first() =~= q + a);
        assert((p + b).drop_first() =~= q + b);
        assert((p + a)[0] == p[0] && (p + b)[0] == p[0]);
    } else {
        assert(p + a =~= a);
        assert(p + b =~= b);
    }
}

proof fn lemma_remote_agent(s: Seq<(String, RemoteSurfaceState)>, order: Seq<int>, k: int, m: int)
    requires
        0 <= k,
    ensures
        k <= m < order.len() && s[order[m]].1.agent is Some && (forall|j: int|
            k <= j < m ==> s[#[trigger] order[j]].1.agent is None) ==> remote_agent(s, order, k)
            == opt_view(s[order[m]].1.agent),
        (forall|j: int| k <= j < order.len() ==> s[#[trigger] order[j]].1.agent is None)
            ==> remote_agent(s, order, k) is None,
    decreases order.len() - k,
{
    if k < order.len() {
        lemma_remote_agent(s, order, k + 1, m);
    }
}

proof fn lemma_remote_dir(s: Seq<(String, RemoteSurfaceState)>, order: Seq<int>, k: int, m: int)
    requires
        0 <= k,
    ensures
        k <= m < order.len() && s[order[m]].1.launch_cwd is Some && (forall|j: int|
            k <= j < m ==> s[#[trigger] order[j]].1.launch_cwd is None) ==> remote_dir(s, order, k)
            == opt_view(s[order[m]].1.launch_cwd),
        (forall|j: int| k <= j < order.len() ==> s[#[trigger] order[j]].1.launch_cwd is None)
            ==> remote_dir(s, order, k) is None,
    decreases order.len() - k,
{
    if k < order.len() {
        lemma_remote_dir(s, order, k + 1, m);
    }
}

/// The session at `i` is not gone and names its agent, and no other such session is
/// listed before it.
pub open spec fn first_with_agent(s: Seq<(String, RemoteSurfaceState)>, i: int) -> bool {
    &&& 0 <= i < s.len()
    &&& s[i].1.freshness != RemoteFreshness::Gone
    &&& s[i].1.agent is Some
    &&& forall|j: int|
        0 <= j < s.len() && j != i && (#[trigger] s[j]).1.freshness != RemoteFreshness::Gone
            && s[j].1.agent is Some ==> listed_before(s[i], s[j]) && !listed_before(s[j], s[i])
}

/// As `first_with_agent`, for the directory.
pub open spec fn first_with_dir(s: Seq<(String, RemoteSurfaceState)>, i: int) -> bool {
    &&& 0 <= i < s.len()
    &&& s[i].1.freshness != RemoteFreshness::Gone
    &&& s[i].1.launch_cwd is Some
    &&& forall|j: int|
        0 <= j < s.len() && j != i && (#[trigger] s[j]).1.freshness != RemoteFreshness::Gone
            && s[j].1.launch_cwd is Some ==> listed_before(s[i], s[j]) && !listed_before(s[j], s[i])
}

// ---------------------------------------------------------------------------
// The agent's name
// ---------------------------------------------------------------------------

/// The local sources are asked in turn: the session's state, its file, the screen.
pub proof fn local_sources_name_the_agent(w: WorkspaceState, agents: AgentTable, order: Seq<int>)
    requires
        is_local(w, agents),
    ensures
        ({
            let name = w.agent_name_spec(agents, order);
            let by_state = w.mux_status is Some && w.mux_status.unwrap().agent@.len() > 0;
            let by_file = w.session is Some && w.session.unwrap().frontmatter.agent is Some;
            &&& by_state ==> name == w.mux_status.unwrap().agent@
            &&& !by_state && by_file ==> name == w.session.unwrap().frontmatter.agent.unwrap()@
            &&& !by_state && !by_file && w.screen_insights.agent is Some ==> name
                == w.screen_insights.agent.unwrap()@
        }),
{
    lemma_local(w, agents);
}

/// Nothing but the surfaces' titles tells the local agent.
pub open spec fn only_titles_tell(w: WorkspaceState) -> bool {
    &&& w.mux_status is Some ==> w.mux_status.unwrap().agent@.len() == 0
    &&& w.session is Some ==> w.session.unwrap().frontmatter.agent is None
    &&& w.screen_insights.agent is None
}

proof fn lemma_titled_agent(w: WorkspaceState, agents: AgentTable, i: int, k: int)
    requires
        0 <= i,
    ensures
        i <= k < w.surfaces@.len() && title_tells(w, agents, k) && (forall|j: int|
            i <= j < k ==> !#[trigger] title_tells(w, agents, j)) ==> titled_agent(
            w.surfaces@,
            w.remote_surfaces,
            agents,
            i,
        ) == agents.named(lowercase(w.surfaces@[k].title@)),
        (forall|j: int| i <= j < w.surfaces@.len() ==> !#[trigger] title_tells(w, agents, j))
            ==> titled_agent(w.surfaces@, w.remote_surfaces, agents, i) is None,
    decreases w.surfaces@.len() - i,
{
    if i < w.surfaces@.len() {
        lemma_bound(w, w.surfaces@[i]);
        lemma_named(agents.agents@, lowercase(w.surfaces@[i].title@), 0, 0);
        assert(title_tells(w, agents, i) == (!w.remote_surfaces.has_key(w.surfaces@[i].ref_id@)
            && agents.named(lowercase(w.surfaces@[i].title@)) is Some));
        lemma_titled_agent(w, agents, i + 1, k);
    }
}

/// The title of surface `j`, which is bound to no remote session, names an agent.
pub open spec fn title_tells(w: WorkspaceState, agents: AgentTable, j: int) -> bool {
    !is_bound(w, w.surfaces@[j]) && names_an_agent(agents, lowercase(w.surfaces@[j].title@))
}

/// Then the first surface whose title names an agent is asked.
pub proof fn the_first_title_names_the_agent(
    w: WorkspaceState,
    agents: AgentTable,
    order: Seq<int>,
    k: int,
)
    requires
        is_local(w, agents),
        only_titles_tell(w),
        0 <= k < w.surfaces@.len(),
        title_tells(w, agents, k),
        forall|j: int| 0 <= j < k ==> !#[trigger] title_tells(w, agents, j),
    ensures
        Some(w.agent_name_spec(agents, order)) == agents.named(lowercase(w.surfaces@[k].title@)),
{
    lemma_local(w, agents);
    lemma_titled_agent(w, agents, 0, k);
    lemma_named(agents.agents@, lowercase(w.surfaces@[k].title@), 0, 0);
}

/// Where nothing local tells it, the first remote session that names an agent does, and
/// without one the name is empty.
pub proof fn a_remote_session_names_the_agent(
    w: WorkspaceState,
    agents: AgentTable,
    order: Seq<int>,
    i: int,
)
    requires
        is_active_order(w.remote_surfaces.entries@, order),
        !is_local(w, agents) || only_titles_tell(w) && (forall|j: int|
            0 <= j < w.surfaces@.len() ==> !#[trigger] title_tells(w, agents, j)),
    ensures
        first_with_agent(w.remote_surfaces.entries@, i) ==> w.agent_name_spec(agents, order)
            == w.remote_surfaces.entries@[i].1.agent.unwrap()@,
        (forall|j: int|
            0 <= j < w.remote_surfaces.entries@.len() && (
            #[trigger] w.remote_surfaces.entries@[j]).1.freshness != RemoteFreshness::Gone
                ==> w.remote_surfaces.entries@[j].1.agent is None) ==> w.agent_name_spec(
            agents,
            order,
        ) == ""@,
{
    let s = w.remote_surfaces.entries@;
    lemma_local(w, agents);
    lemma_titled_agent(w, agents, 0, 0);
    if first_with_agent(s, i) {
        assert(crate::mesh::is_active(s[i]));
        assert(order.contains(i));
        let m = choose|m: int| 0 <= m < order.len() && order[m] == i;
        assert forall|j: int| 0 <= j < m implies s[#[trigger] order[j]].1.agent is None by {
            if s[order[j]].1.agent is Some {
                assert(crate::mesh::precedes(s[order[j]], s[order[m]]));
                lemma_listed_before(s[order[j]], s[i]);
                assert(crate::mesh::is_active(s[order[j]]));
                if order[j] == i {
                    crate::order::lemma_lex_irreflexive(s[i].0@);
                }
            }
        }
        lemma_remote_agent(s, order, 0, m);
    }
    lemma_remote_agent(s, order, 0, 0);
}

// ---------------------------------------------------------------------------
// The working directory
// ---------------------------------------------------------------------------

/// A title names the directory behind its last colon, or is a path itself.
pub proof fn a_title_names_a_directory(a: Seq<char>, b: Seq<char>)
    requires
        !b.contains(':'),
    ensures
        b.len() > 0 && b[0] == '/' ==> dir_in(a + seq![':'] + b) == Some(b),
        b.len() > 1 && b[0] == '~' && b[1] == '/' ==> dir_in(a + seq![':'] + b) == Some(b),
        b.len() > 1 && b[0] == '~' && b[1] == '/' ==> dir_in(b) == Some(b),
        b.len() > 1 && b[0] == '…' && b[1] == '/' ==> dir_in(b) == Some(b),
        !(b.len() > 1 && (b[0] == '~' || b[0] == '…') && b[1] == '/') ==> dir_in(b) is None,
{
    reveal_strlit(":");
    reveal_strlit(":/");
    reveal_strlit("~/");
    reveal_strlit("…/");
    let t = a + seq![':'] + b;
    let n = a.len() as int;
    assert(t[n] == ':');
    assert(t.subrange(n, n + 1) =~= ":"@);
    assert(crate::search::matches_at(t, ":"@, n));
    assert(t.skip(n + 1) =~= b);
    assert forall|i: int| n < i implies !crate::search::matches_at(t, ":"@, i) by {
        if crate::search::matches_at(t, ":"@, i) {
            assert(t.subrange(i, i + 1)[0] == t[i]);
            assert(b[i - n - 1] == ':');
        }
    }
    crate::search::lemma_has_find(t, ":"@);
    assert(rfind(t, ":"@) == Some(n)) by {
        match rfind(t, ":"@) {
            Some(i) => {
                crate::text_laws::searches_give_the_first_and_the_last_place(t, ":"@, i);
                if i < n {
                    assert(t.subrange(n, n + ":"@.len()) == ":"@);
                }
                assert(crate::search::matches_at(t, ":"@, i));
            },
            None => {
                crate::text_laws::searches_give_the_first_and_the_last_place(t, ":"@, n);
                assert(t.subrange(n, n + ":"@.len()) == ":"@);
            },
        }
    }
    if b.len() > 0 && b[0] == '/' {
        assert(t.subrange(n, n + 2) =~= ":/"@);
        assert(crate::search::matches_at(t, ":/"@, n));
    }
    if b.len() > 1 && b[0] == '~' && b[1] == '/' {
        assert(t.subrange(n + 1, n + 3) =~= "~/"@);
        assert(crate::search::matches_at(t, "~/"@, n + 1));
    }
    if b.len() > 1 {
        assert(b.subrange(0, 2)[0] == b[0]);
        assert(b.subrange(0, 2)[1] == b[1]);
        if b[0] == '~' && b[1] == '/' {
            assert(b.subrange(0, 2) =~= "~/"@);
        }
        if b[0] == '…' && b[1] == '/' {
            assert(b.subrange(0, 2) =~= "…/"@);
        }
    }
}

proof fn lemma_titled_dir(s: Seq<SurfaceInfo>, i: int, k: int)
    requires
        0 <= i,
    ensures
        i <= k < s.len() && dir_in(s[k].title@) is Some && (forall|j: int|
            i <= j < k ==> dir_in((#[trigger] s[j]).title@) is None) ==> titled_dir(s, i) == dir_in(
            s[k].title@,
        ),
        (forall|j: int| i <= j < s.len() ==> dir_in((#[trigger] s[j]).title@) is None)
            ==> titled_dir(s, i) is None,
    decreases s.len() - i,
{
    if i < s.len() {
        lemma_titled_dir(s, i + 1, k);
    }
}

/// The directory on the screen counts where the workspace has an agent of its own or no
/// remote session, and that of the first remote session with one otherwise.
pub proof fn the_screen_or_a_session_tells_the_directory(
    w: WorkspaceState,
    agents: AgentTable,
    order: Seq<int>,
    i: int,
)
    requires
        is_active_order(w.remote_surfaces.entries@, order),
    ensures
        is_local(w, agents) && w.screen_insights.working_dir is Some ==> w.working_dir_spec(
            agents,
            order,
        ) == w.screen_insights.working_dir.unwrap()@,
        !is_local(w, agents) && first_with_dir(w.remote_surfaces.entries@, i)
            ==> w.working_dir_spec(agents, order) == w.remote_surfaces.entries@[i].1.launch_cwd.unwrap()@,
{
    let s = w.remote_surfaces.entries@;
    lemma_local(w, agents);
    if first_with_dir(s, i) {
        assert(crate::mesh::is_active(s[i]));
        assert(order.contains(i));
        let m = choose|m: int| 0 <= m < order.len() && order[m] == i;
        assert forall|j: int| 0 <= j < m implies s[#[trigger] order[j]].1.launch_cwd is None by {
            if s[order[j]].1.launch_cwd is Some {
                assert(crate::mesh::precedes(s[order[j]], s[order[m]]));
                lemma_listed_before(s[order[j]], s[i]);
                assert(crate::mesh::is_active(s[order[j]]));
                if order[j] == i {
                    crate::order::lemma_lex_irreflexive(s[i].0@);
                }
            }
        }
        lemma_remote_dir(s, order, 0, m);
    }
}

/// Where neither tells one, the first title that names a directory does, and without one
/// the directory is empty.
pub proof fn the_first_title_names_the_directory(
    w: WorkspaceState,
    agents: AgentTable,
    order: Seq<int>,
    k: int,
)
    requires
        is_active_order(w.remote_surfaces.entries@, order),
        is_local(w, agents) ==> w.screen_insights.working_dir is None,
        !is_local(w, agents) ==> forall|j: int|
            0 <= j < w.remote_surfaces.entries@.len() && (
            #[trigger] w.remote_surfaces.entries@[j]).1.freshness != RemoteFreshness::Gone
                ==> w.remote_surfaces.entries@[j].1.launch_cwd is None,
    ensures
        0 <= k < w.surfaces@.len() && dir_in(w.surfaces@[k].title@) is Some && (forall|j: int|
            0 <= j < k ==> dir_in((#[trigger] w.surfaces@[j]).title@) is None) ==> Some(
            w.working_dir_spec(agents, order),
        ) == dir_in(w.surfaces@[k].title@),
        (forall|j: int|
            0 <= j < w.surfaces@.len() ==> dir_in((#[trigger] w.surfaces@[j]).title@) is None)
            ==> w.working_dir_spec(agents, order) == ""@,
{
    lemma_local(w, agents);
    lemma_titled_dir(w.surfaces@, 0, k);
    lemma_remote_dir(w.remote_surfaces.entries@, order, 0, 0);
}

// ---------------------------------------------------------------------------
// The host
// ---------------------------------------------------------------------------

proof fn lemma_until(x: Seq<char>, c: char, y: Seq<char>, i: int)
    requires
        0 <= i <= x.len(),
        !x.contains(c),
        y.len() > 0 ==> y[0] == c,
    ensures
        until(x + y, c, i) == x.len(),
    decreases x.len() - i,
{
    if i < x.len() {
        assert((x + y)[i] == x[i]);
        assert(x.contains(x[i]));
        lemma_until(x, c, y, i + 1);
    }
}

proof fn lemma_until_shift(p: Seq<char>, s: Seq<char>, c: char, i: int)
    requires
        0 <= i <= s.len(),
    ensures
        until(p + s, c, p.len() + i) == p.len() + until(s, c, i),
        i <= until(s, c, i) <= s.len(),
        forall|k: int| i <= k < until(s, c, i) ==> s[k] != c,
    decreases s.len() - i,
{
    if i < s.len() {
        assert((p + s)[p.len() + i] == s[i]);
        if s[i] != c {
            lemma_until_shift(p, s, c, i + 1);
        }
    }
}

/// In `user@host:path` the host stands between the sign and the colon; a host of this
/// machine does not count.
pub proof fn a_title_names_a_host(user: Seq<char>, host: Seq<char>, path: Seq<char>)
    requires
        !user.contains('@'),
        !host.contains('@'),
        !host.contains(':'),
    ensures
        ({
            let t = user + seq!['@'] + host + seq![':'] + path;
            if has_text(host, "mbp"@) || has_text(host, "local"@) {
                host_in(t) is None
            } else {
                host_in(t) == Some(host)
            }
        }),
{
    let t = user + seq!['@'] + host + seq![':'] + path;
    let rest = host + seq![':'] + path;
    assert(t =~= user + (seq!['@'] + rest));
    assert(t =~= (user + seq!['@']) + rest);
    assert(t[user.len() as int] == '@');
    assert(t[user.len() as int + 1 + host.len()] == ':');
    assert((seq!['@'] + rest)[0] == '@');
    lemma_until(user, '@', seq!['@'] + rest, 0);
    let from = user.len() as int + 1;
    lemma_until_shift(user + seq!['@'], rest, '@', 0);
    let n = until(rest, '@', 0);
    assert(until(t, '@', from) == from + n);
    if n <= host.len() {
        assert forall|k: int| 0 <= k < host.len() implies rest[k] == host[k] by {}
        lemma_stops(rest, '@', 0);
        if n < host.len() {
            assert(rest[n] == '@');
            assert(host.contains(host[n]));
        } else {
            assert(rest[n] == ':');
        }
    }
    let part = t.subrange(from, from + n);
    let tail = part.skip(host.len() as int);
    assert(part =~= rest.take(n));
    assert(part =~= host + tail);
    assert(tail[0] == rest[host.len() as int]);
    lemma_until(host, ':', tail, 0);
    assert(part.take(host.len() as int) =~= host);
}

proof fn lemma_stops(s: Seq<char>, c: char, i: int)
    requires
        0 <= i <= s.len(),
    ensures
        until(s, c, i) < s.len() ==> s[until(s, c, i)] == c,
        until(s, c, i) <= s.len(),
    decreases s.len() - i,
{
    if i < s.len() && s[i] != c {
        lemma_stops(s, c, i + 1);
    }
}

proof fn lemma_titled_host(s: Seq<SurfaceInfo>, i: int, k: int)
    requires
        0 <= i,
    ensures
        i <= k < s.len() && host_in(s[k].title@) is Some && (forall|j: int|
            i <= j < k ==> host_in((#[trigger] s[j]).title@) is None) ==> titled_host(s, i)
            == host_in(s[k].title@),
        (forall|j: int| i <= j < s.len() ==> host_in((#[trigger] s[j]).title@) is None)
            ==> titled_host(s, i) is None,
    decreases s.len() - i,
{
    if i < s.len() {
        lemma_titled_host(s, i + 1, k);
    }
}

/// An active session of the workspace runs on the device.
pub open spec fn has_session_on(w: WorkspaceState, d: Seq<char>) -> bool {
    exists|i: int|
        0 <= i < w.remote_surfaces.entries@.len() && (
        #[trigger] w.remote_surfaces.entries@[i]).1.freshness != RemoteFreshness::Gone
            && w.remote_surfaces.entries@[i].1.locator.device_id@ == d
}

/// The only device of the remote sessions is the host; of several only the number is
/// told.
pub proof fn remote_devices_are_the_host(
    w: WorkspaceState,
    devices: Seq<Seq<char>>,
    d: Seq<char>,
    e: Seq<char>,
)
    requires
        is_device_list(w.remote_surfaces.entries@, devices),
        has_session_on(w, d),
    ensures
        (forall|x: Seq<char>| #[trigger] has_session_on(w, x) ==> x == d) ==> w.host_name_spec(
            devices,
        ) == d,
        has_session_on(w, e) && e != d ==> w.host_name_spec(devices) == "remote×"@ + decimal(
            devices.len(),
        ) && devices.len() > 1,
        forall|x: Seq<char>| devices.contains(x) <==> #[trigger] has_session_on(w, x),
        devices.no_duplicates(),
{
    let s = w.remote_surfaces.entries@;
    assert forall|x: Seq<char>| devices.contains(x) <==> #[trigger] has_session_on(w, x) by {
        assert(has_session_on(w, x) == runs_on(s, x)) by {
            if has_session_on(w, x) {
                let i = choose|i: int|
                    0 <= i < s.len() && (#[trigger] s[i]).1.freshness != RemoteFreshness::Gone
                        && s[i].1.locator.device_id@ == x;
                assert(crate::mesh::is_active(s[i]));
            }
        }
    }
    assert(devices.contains(d));
    assert(devices.no_duplicates()) by {
        assert forall|i: int, j: int|
            0 <= i < devices.len() && 0 <= j < devices.len() && i != j implies devices[i]
            != devices[j] by {
            crate::order::lemma_lex_irreflexive(devices[i]);
            if i < j {
                assert(lex_less(devices[i], devices[j]));
            } else {
                assert(lex_less(devices[j], devices[i]));
            }
        }
    }
    if forall|x: Seq<char>| #[trigger] has_session_on(w, x) ==> x == d {
        assert(devices.contains(devices[0]));
        assert(has_session_on(w, devices[0]));
        if devices.len() > 1 {
            assert(devices.contains(devices[1]));
            assert(has_session_on(w, devices[1]));
        }
    }
    if has_session_on(w, e) && e != d {
        assert(devices.contains(e));
        if devices.len() == 1 {
            assert(devices[0] == d);
        }
    }
}

/// Without a remote session the host is that of the session's file, then that of the
/// first title that names one, and else empty.
pub proof fn a_local_workspace_names_its_host(
    w: WorkspaceState,
    devices: Seq<Seq<char>>,
    k: int,
)
    requires
        is_device_list(w.remote_surfaces.entries@, devices),
        !has_remote(w),
    ensures
        ({
            let by_file = w.session is Some && w.session.unwrap().frontmatter.host is Some;
            let host = w.host_name_spec(devices);
            &&& by_file ==> host == w.session.unwrap().frontmatter.host.unwrap()@
            &&& !by_file && 0 <= k < w.surfaces@.len() && host_in(w.surfaces@[k].title@) is Some
                && (forall|j: int|
                0 <= j < k ==> host_in((#[trigger] w.surfaces@[j]).title@) is None) ==> Some(host)
                == host_in(w.surfaces@[k].title@)
            &&& !by_file && (forall|j: int|
                0 <= j < w.surfaces@.len() ==> host_in((#[trigger] w.surfaces@[j]).title@) is None)
                ==> host == ""@
        }),
{
    if devices.len() > 0 {
        assert(devices.contains(devices[0]));
        assert(runs_on(w.remote_surfaces.entries@, devices[0]));
    }
    lemma_titled_host(w.surfaces@, 0, k);
}

} // verus!
