//! Agent sessions and the workspaces they belong to.
use crate::app::{only_workspaces, App};
use crate::assoc::Assoc;
use crate::text::{lemma_views_push, opt_view, same, views};
use crate::workspace::{MuxSessionState, SessionFile, Workspace, WorkspaceState};
use vstd::prelude::*;

verus! {

// ---------------------------------------------------------------------------
// States that the hooks wrote
// ---------------------------------------------------------------------------

/// The last of the first `n` states that belongs to a session.
pub open spec fn state_of(states: Seq<MuxSessionState>, session: Seq<char>, n: int) -> Option<int>
    decreases n,
{
    if n <= 0 {
        None
    } else if states[n - 1].session_id@ == session {
        Some(n - 1)
    } else {
        state_of(states, session, n - 1)
    }
}

/// Some session belongs to the workspace.
pub open spec fn has_session(sessions: Seq<(String, String)>, uuid: Seq<char>) -> bool {
    exists|e: int| 0 <= e < sessions.len() && (#[trigger] sessions[e]).1@ == uuid
}

/// State `k` is that of a session among the first `n` that belongs to the workspace.
pub open spec fn speaks_for(
    sessions: Seq<(String, String)>,
    states: Seq<MuxSessionState>,
    uuid: Seq<char>,
    n: int,
    k: int,
) -> bool {
    exists|e: int|
        0 <= e < n && (#[trigger] sessions[e]).1@ == uuid && state_of(
            states,
            sessions[e].0@,
            states.len() as int,
        ) == Some(k)
}

/// State `best` is a newest one of the workspace's sessions among the first `n`;
/// none when they have no state.
pub open spec fn is_newest(
    sessions: Seq<(String, String)>,
    states: Seq<MuxSessionState>,
    uuid: Seq<char>,
    n: int,
    best: Option<int>,
) -> bool {
    match best {
        Some(b) => 0 <= b < states.len() && speaks_for(sessions, states, uuid, n, b) && forall|
            k: int,
        |
            #[trigger] speaks_for(sessions, states, uuid, n, k) ==> states[k].updated_at
                <= states[b].updated_at,
        None => forall|k: int| !#[trigger] speaks_for(sessions, states, uuid, n, k),
    }
}

/// An earlier workspace has the same identity.
pub open spec fn repeats(s: Seq<WorkspaceState>, i: int) -> bool {
    exists|j: int| 0 <= j < i && (#[trigger] s[j]).workspace.uuid@ == s[i].workspace.uuid@
}

/// Workspace `r` at position `i` after the sessions' states were taken: the newest
/// state of its sessions is its own. A workspace without sessions stays as it is.
pub open spec fn took_states(
    s: Seq<WorkspaceState>,
    sessions: Seq<(String, String)>,
    states: Seq<MuxSessionState>,
    i: int,
    r: WorkspaceState,
) -> bool {
    let uuid = s[i].workspace.uuid@;
    if !has_session(sessions, uuid) {
        r == s[i]
    } else {
        &&& r == (WorkspaceState { mux_status: r.mux_status, ..s[i] })
        &&& if repeats(s, i) {
            r.mux_status is None
        } else {
            match r.mux_status {
                Some(m) => exists|b: int| #[trigger]
                    is_newest(sessions, states, uuid, sessions.len() as int, Some(b)) && states[b]
                        == m,
                None => is_newest(sessions, states, uuid, sessions.len() as int, None),
            }
        }
    }
}

fn find_state(states: &Vec<MuxSessionState>, session: &str) -> (r: Option<usize>)
    ensures
        match r {
            Some(k) => state_of(states@, session@, states@.len() as int) == Some(k as int) && k
                < states@.len(),
            None => state_of(states@, session@, states@.len() as int) is None,
        },
{
    let mut n: usize = states.len();
    while n > 0
        invariant
            n <= states@.len(),
            state_of(states@, session@, states@.len() as int) == state_of(
                states@,
                session@,
                n as int,
            ),
        decreases n,
    {
        if same(states[n - 1].session_id.as_str(), session) {
            return Some(n - 1);
        }
        n -= 1;
    }
    None
}

/// The sessions among the first `n` that none of the states belongs to.
pub open spec fn unreported(
    sessions: Seq<(String, String)>,
    states: Seq<MuxSessionState>,
    n: int,
) -> Seq<Seq<char>>
    decreases n,
{
    if n <= 0 {
        Seq::empty()
    } else if state_of(states, sessions[n - 1].0@, states.len() as int) is Some {
        unreported(sessions, states, n - 1)
    } else {
        unreported(sessions, states, n - 1).push(sessions[n - 1].0@)
    }
}

impl App {
    /// The known sessions that none of the active states belongs to. Their states are
    /// read one by one.
    pub fn sessions_without_state(&self, active: &Vec<MuxSessionState>) -> (r: Vec<String>)
        ensures
            views(r@) == unreported(
                self.session_to_workspace.entries@,
                active@,
                self.session_to_workspace.entries@.len() as int,
            ),
    {
        let ghost sessions = self.session_to_workspace.entries@;
        let mut out: Vec<String> = Vec::new();
        let mut i: usize = 0;
        assert(views(out@) =~= Seq::<Seq<char>>::empty());
        while i < self.session_to_workspace.entries.len()
            invariant
                i <= sessions.len(),
                sessions == self.session_to_workspace.entries@,
                views(out@) == unreported(sessions, active@, i as int),
            decreases sessions.len() - i,
        {
            let id = self.session_to_workspace.entries[i].0.clone();
            if find_state(active, id.as_str()).is_none() {
                proof {
                    lemma_views_push(out@, id);
                }
                out.push(id);
            }
            i += 1;
        }
        out
    }
}

proof fn lemma_speaks_step(
    sessions: Seq<(String, String)>,
    states: Seq<MuxSessionState>,
    uuid: Seq<char>,
    n: int,
    k: int,
)
    requires
        0 <= n < sessions.len(),
    ensures
        speaks_for(sessions, states, uuid, n + 1, k) == (speaks_for(sessions, states, uuid, n, k)
            || (sessions[n].1@ == uuid && state_of(states, sessions[n].0@, states.len() as int)
            == Some(k))),
{
    if speaks_for(sessions, states, uuid, n, k) {
        let e = choose|e: int|
            0 <= e < n && (#[trigger] sessions[e]).1@ == uuid && state_of(
                states,
                sessions[e].0@,
                states.len() as int,
            ) == Some(k);
        assert(sessions[e].1@ == uuid);
    }
}

fn newest_state(sessions: &Assoc<String>, states: &Vec<MuxSessionState>, uuid: &str) -> (r: (
    bool,
    Option<usize>,
))
    ensures
        r.0 == has_session(sessions.entries@, uuid@),
        is_newest(
            sessions.entries@,
            states@,
            uuid@,
            sessions.entries@.len() as int,
            (match r.1 {
                Some(b) => Some(b as int),
                None => None,
            }),
        ),
{
    let ghost es = sessions.entries@;
    let mut any = false;
    let mut best: Option<usize> = None;
    let mut i: usize = 0;
    while i < sessions.entries.len()
        invariant
            i <= es.len(),
            es == sessions.entries@,
            any == has_session(es.take(i as int), uuid@),
            is_newest(
                es,
                states@,
                uuid@,
                i as int,
                (match best {
                    Some(b) => Some(b as int),
                    None => None,
                }),
            ),
        decreases es.len() - i,
    {
        let ghost prior = best;
        assert(es.take(i + 1) =~= es.take(i as int).push(es[i as int]));
        assert(es.take(i + 1)[i as int] == es[i as int]);
        proof {
            assert forall|k: int| true implies #[trigger] speaks_for(es, states@, uuid@, i + 1, k)
                == (speaks_for(es, states@, uuid@, i as int, k) || (es[i as int].1@ == uuid@
                && state_of(states@, es[i as int].0@, states@.len() as int) == Some(k))) by {
                lemma_speaks_step(es, states@, uuid@, i as int, k);
            }
            if has_session(es.take(i as int), uuid@) {
                let e = choose|e: int|
                    0 <= e < i && (#[trigger] es.take(i as int)[e]).1@ == uuid@;
                assert(es.take(i + 1)[e].1@ == uuid@);
            }
            if has_session(es.take(i + 1), uuid@) && es[i as int].1@ != uuid@ {
                let e = choose|e: int|
                    0 <= e < i + 1 && (#[trigger] es.take(i + 1)[e]).1@ == uuid@;
                assert(es.take(i as int)[e].1@ == uuid@);
            }
        }
        if same(sessions.entries[i].1.as_str(), uuid) {
            any = true;
            if let Some(k) = find_state(states, sessions.entries[i].0.as_str()) {
                let newer = match best {
                    Some(b) => states[b].updated_at < states[k].updated_at,
                    None => true,
                };
                if newer {
                    best = Some(k);
                }
                assert(speaks_for(es, states@, uuid@, i + 1, k as int));
            }
        }
        assert(match best {
            Some(b) => speaks_for(es, states@, uuid@, i + 1, b as int),
            None => true,
        });
        i += 1;
    }
    assert(es.take(es.len() as int) =~= es);
    (any, best)
}

impl App {
    /// Takes the states of the sessions that are known: each workspace with sessions
    /// has the newest of theirs.
    pub fn apply_mux_session_states(&mut self, states: Vec<MuxSessionState>)
        ensures
            old(self).well_formed() ==> final(self).well_formed(),
            only_workspaces(*old(self), *final(self)),
            final(self).workspaces@.len() == old(self).workspaces@.len(),
            forall|i: int|
                0 <= i < old(self).workspaces@.len() ==> took_states(
                    old(self).workspaces@,
                    old(self).session_to_workspace.entries@,
                    states@,
                    i,
                    #[trigger] final(self).workspaces@[i],
                ),
    {
        let ghost before = *self;
        let ghost s = before.workspaces@;
        let ghost es = before.session_to_workspace.entries@;
        let n: usize = self.workspaces.len();
        let mut i: usize = 0;
        while i < n
            invariant
                i <= n,
                n == s.len(),
                n == self.workspaces@.len(),
                s == before.workspaces@,
                es == before.session_to_workspace.entries@,
                only_workspaces(before, *self),
                forall|k: int|
                    0 <= k < i ==> took_states(s, es, states@, k, #[trigger] self.workspaces@[k]),
                forall|k: int| 0 <= k < n ==> (#[trigger] self.workspaces@[k]).workspace
                    == s[k].workspace,
                forall|k: int| i <= k < n ==> (#[trigger] self.workspaces@[k]) == s[k],
            decreases n - i,
        {
            let uuid = self.workspaces[i].workspace.uuid.clone();
            let (any, best) = newest_state(&self.session_to_workspace, &states, uuid.as_str());
            if any {
                let mut repeated = false;
                let mut j: usize = 0;
                while j < i
                    invariant
                        j <= i < n,
                        n == self.workspaces@.len(),
                        n == s.len(),
                        uuid@ == s[i as int].workspace.uuid@,
                        forall|k: int|
                            0 <= k < n ==> (#[trigger] self.workspaces@[k]).workspace
                                == s[k].workspace,
                        repeated == (exists|k: int|
                            0 <= k < j && (#[trigger] s[k]).workspace.uuid@ == uuid@),
                    decreases i - j,
                {
                    assert(self.workspaces@[j as int].workspace == s[j as int].workspace);
                    if same(self.workspaces[j].workspace.uuid.as_str(), uuid.as_str()) {
                        repeated = true;
                    }
                    j += 1;
                }
                let status = match best {
                    Some(b) if !repeated => Some(states[b].clone()),
                    _ => None,
                };
                self.workspaces[i].mux_status = status;
            }
            assert(took_states(s, es, states@, i as int, self.workspaces@[i as int]));
            i += 1;
        }
    }
}

// ---------------------------------------------------------------------------
// Session files
// ---------------------------------------------------------------------------

/// One of the workspaces has the identity.
pub open spec fn is_known(workspaces: Seq<Workspace>, uuid: Seq<char>) -> bool {
    exists|i: int| 0 <= i < workspaces.len() && (#[trigger] workspaces[i]).uuid@ == uuid
}

/// The first file at or after `i` that names the workspace.
pub open spec fn session_from(files: Seq<SessionFile>, uuid: Seq<char>, i: int) -> Option<SessionFile>
    decreases files.len() - i,
{
    if i < 0 || i >= files.len() {
        None
    } else if opt_view(files[i].frontmatter.workspace_id) == Some(uuid) {
        Some(files[i])
    } else {
        session_from(files, uuid, i + 1)
    }
}

fn knows(workspaces: &Vec<Workspace>, uuid: &str) -> (r: bool)
    ensures
        r == is_known(workspaces@, uuid@),
{
    let mut i: usize = 0;
    while i < workspaces.len()
        invariant
            i <= workspaces@.len(),
            forall|k: int| 0 <= k < i ==> (#[trigger] workspaces@[k]).uuid@ != uuid@,
        decreases workspaces@.len() - i,
    {
        if same(workspaces[i].uuid.as_str(), uuid) {
            return true;
        }
        i += 1;
    }
    false
}

/// The session file of each workspace: the first one, in the given order, that
/// names it. Files are listed newest first.
pub fn sessions_by_workspace(workspaces: &Vec<Workspace>, files: Vec<SessionFile>) -> (r: Assoc<
    SessionFile,
>)
    ensures
        r.well_formed(),
        forall|uuid: Seq<char>| #[trigger]
            r.lookup(uuid) == (if is_known(workspaces@, uuid) {
                session_from(files@, uuid, 0)
            } else {
                None
            }),
{
    let ghost all = files@;
    let mut map: Assoc<SessionFile> = Assoc::new();
    let mut rest = files;
    let mut i: usize = 0;
    let n: usize = rest.len();
    while i < n
        invariant
            i <= n,
            n == all.len(),
            rest@ =~= all.skip(i as int),
            map.well_formed(),
            forall|uuid: Seq<char>| #[trigger]
                map.lookup(uuid) == (if is_known(workspaces@, uuid) && session_from(
                    all.take(i as int),
                    uuid,
                    0,
                ) is Some {
                    session_from(all.take(i as int), uuid, 0)
                } else {
                    None
                }),
        decreases n - i,
    {
        let sf = rest.remove(0);
        assert(sf == all[i as int]);
        assert(all.take(i + 1) =~= all.take(i as int).push(sf));
        let ghost before = map;
        let mut taken: Option<String> = None;
        if let Some(id) = &sf.frontmatter.workspace_id {
            if knows(workspaces, id.as_str()) && !map.contains_key(id.as_str()) {
                taken = Some(id.clone());
            }
        }
        proof {
            assert forall|uuid: Seq<char>| true implies #[trigger] session_from(
                all.take(i + 1),
                uuid,
                0,
            ) == (match session_from(all.take(i as int), uuid, 0) {
                Some(f) => Some(f),
                None => if opt_view(sf.frontmatter.workspace_id) == Some(uuid) {
                    Some(sf)
                } else {
                    None
                },
            }) by {
                lemma_session_push(all.take(i as int), sf, uuid, 0);
            }
        }
        if let Some(id) = taken {
            map.insert(id, sf);
        }
        assert forall|uuid: Seq<char>| true implies #[trigger] map.lookup(uuid) == (if is_known(
            workspaces@,
            uuid,
        ) && session_from(all.take(i + 1), uuid, 0) is Some {
            session_from(all.take(i + 1), uuid, 0)
        } else {
            None
        }) by {
            assert(before.lookup(uuid) is Some == before.has_key(uuid));
        }
        i += 1;
    }
    assert(all.take(n as int) =~= all);
    map
}

proof fn lemma_session_push(files: Seq<SessionFile>, sf: SessionFile, uuid: Seq<char>, i: int)
    requires
        0 <= i <= files.len(),
    ensures
        session_from(files.push(sf), uuid, i) == (match session_from(files, uuid, i) {
            Some(f) => Some(f),
            None => if opt_view(sf.frontmatter.workspace_id) == Some(uuid) {
                Some(sf)
            } else {
                None
            },
        }),
    decreases files.len() - i,
{
    if i < files.len() {
        assert(files.push(sf)[i] == files[i]);
        lemma_session_push(files, sf, uuid, i + 1);
    } else {
        assert(session_from(files.push(sf), uuid, i + 1) is None);
    }
}

} // verus!
