//! Putting together what a refresh gathered.
use crate::assoc::Assoc;
use crate::gather::{beads_wanted, left_out, none_found, shows_beads, surface_report, SessionRoute};
use crate::intent::ConversationIntent;
use crate::mesh::RemoteSurfaceState;
use crate::refresh::RefreshSnapshot;
use crate::search::join;
use crate::sessions::{is_known, session_from, sessions_by_workspace};
use crate::sources::{gather_linear_views, grouped, view_for, LinearAnswer};
use crate::surface::SurfaceInfo;
use crate::tasks::{TaskSource, WorkspaceBeadsView};
use crate::workspace::{SessionFile, Workspace};
use vstd::prelude::*;

verus! {

/// What was found out about a surface: where its session is looked up, and what the
/// session log tells that was found there. A log that tells nothing gives an empty
/// intent.
#[derive(Debug)]
pub struct SurfaceFinding {
    pub surface_ref: String,
    pub route: SessionRoute,
    pub log: Option<ConversationIntent>,
}

/// What a refresh read.
pub struct Gathered {
    pub workspaces: Vec<Workspace>,
    /// Surfaces by workspace reference; `None` when they could not be read.
    pub surfaces: Option<Assoc<Vec<SurfaceInfo>>>,
    /// Session files, the newest first.
    pub session_files: Vec<SessionFile>,
    /// Findings by workspace.
    pub findings: Assoc<Vec<SurfaceFinding>>,
    pub sources: Assoc<TaskSource>,
    /// The Beads rows of every workspace that has any.
    pub beads: Assoc<WorkspaceBeadsView>,
    /// The answers of the Linear queries, in the order of their groups.
    pub answers: Vec<Option<LinearAnswer>>,
    /// The remote sessions of each workspace, when the mesh could be read.
    pub mesh: Option<Assoc<Assoc<RemoteSurfaceState>>>,
    pub mesh_warning: Option<String>,
}

impl Gathered {
    /// No table holds a key twice.
    pub open spec fn well_formed(self) -> bool {
        &&& self.findings.well_formed()
        &&& self.sources.well_formed()
        &&& self.beads.well_formed()
        &&& match self.mesh {
            Some(m) => forall|k: Seq<char>|
                (#[trigger] m.lookup(k)) is Some ==> m.lookup(k).unwrap().well_formed(),
            None => true,
        }
    }
}

// ---------------------------------------------------------------------------
// Intents
// ---------------------------------------------------------------------------

/// The intent of a surface: what is bound to it, or else what its log tells.
pub open spec fn told(f: SurfaceFinding) -> Option<ConversationIntent> {
    match f.route {
        SessionRoute::NoAgent => None,
        SessionRoute::Bound(i) => Some(i),
        SessionRoute::Lookup(_) => f.log,
    }
}

/// The intent that the last of the first `n` findings about the surface tells.
pub open spec fn intent_for(s: Seq<SurfaceFinding>, surface: Seq<char>, n: int) -> Option<
    ConversationIntent,
>
    decreases n,
{
    if n <= 0 {
        None
    } else if s[n - 1].surface_ref@ == surface && told(s[n - 1]) is Some {
        told(s[n - 1])
    } else {
        intent_for(s, surface, n - 1)
    }
}

/// Some finding tells an intent.
pub open spec fn tells(s: Seq<SurfaceFinding>) -> bool {
    exists|i: int| 0 <= i < s.len() && told(#[trigger] s[i]) is Some
}

/// A table holds the intents that the findings tell.
pub open spec fn holds_intents(t: Assoc<ConversationIntent>, s: Seq<SurfaceFinding>) -> bool {
    &&& t.well_formed()
    &&& forall|q: Seq<char>| #[trigger] t.lookup(q) == intent_for(s, q, s.len() as int)
}

fn told_by(f: &SurfaceFinding) -> (r: Option<ConversationIntent>)
    ensures
        r == told(*f),
{
    match &f.route {
        SessionRoute::NoAgent => None,
        SessionRoute::Bound(i) => Some(i.clone()),
        SessionRoute::Lookup(_) => match &f.log {
            Some(i) => Some(i.clone()),
            None => None,
        },
    }
}

/// The intents of a workspace's surfaces; `None` when there are none.
pub fn surface_intents(findings: &Vec<SurfaceFinding>) -> (r: Option<Assoc<ConversationIntent>>)
    ensures
        r is Some == tells(findings@),
        r is Some ==> holds_intents(r.unwrap(), findings@),
{
    let mut map: Assoc<ConversationIntent> = Assoc::new();
    let mut any = false;
    let mut i: usize = 0;
    while i < findings.len()
        invariant
            i <= findings@.len(),
            map.well_formed(),
            any == (exists|k: int| 0 <= k < i && told(#[trigger] findings@[k]) is Some),
            forall|q: Seq<char>| #[trigger] map.lookup(q) == intent_for(findings@, q, i as int),
        decreases findings@.len() - i,
    {
        if let Some(intent) = told_by(&findings[i]) {
            map.insert(findings[i].surface_ref.clone(), intent);
            any = true;
            assert(told(findings@[i as int]) is Some);
        }
        i += 1;
    }
    if any {
        Some(map)
    } else {
        None
    }
}

/// The intents of all workspaces.
pub fn intents_by_workspace(findings: &Assoc<Vec<SurfaceFinding>>) -> (r: Assoc<
    Assoc<ConversationIntent>,
>)
    requires
        findings.well_formed(),
    ensures
        r.well_formed(),
        forall|k: Seq<char>|
            match (#[trigger] r.lookup(k)) {
                Some(t) => findings.lookup(k) is Some && tells(findings.lookup(k).unwrap()@)
                    && holds_intents(t, findings.lookup(k).unwrap()@),
                None => findings.lookup(k) is None || !tells(findings.lookup(k).unwrap()@),
            },
{
    let mut out: Assoc<Assoc<ConversationIntent>> = Assoc::new();
    let ghost es = findings.entries@;
    let mut i: usize = 0;
    while i < findings.entries.len()
        invariant
            i <= es.len(),
            es == findings.entries@,
            findings.well_formed(),
            out.well_formed(),
            forall|k: Seq<char>| (#[trigger] out.lookup(k)) is Some ==> exists|m: int|
                0 <= m < i && (#[trigger] es[m]).0@ == k && tells(es[m].1@) && holds_intents(
                    out.lookup(k).unwrap(),
                    es[m].1@,
                ),
            forall|m: int|
                0 <= m < i && tells((#[trigger] es[m]).1@) ==> out.lookup(es[m].0@) is Some,
        decreases es.len() - i,
    {
        let ghost before = out;
        if let Some(t) = surface_intents(&findings.entries[i].1) {
            let id = findings.entries[i].0.clone();
            out.insert(id, t);
            assert forall|k: Seq<char>| (#[trigger] out.lookup(k)) is Some implies exists|m: int|
                0 <= m < i + 1 && (#[trigger] es[m]).0@ == k && tells(es[m].1@) && holds_intents(
                    out.lookup(k).unwrap(),
                    es[m].1@,
                ) by {
                if k == id@ {
                    assert(es[i as int].0@ == k);
                } else {
                    assert(out.lookup(k) == before.lookup(k));
                }
            }
            assert forall|m: int| 0 <= m < i + 1 && tells((#[trigger] es[m]).1@) implies out.lookup(
                es[m].0@,
            ) is Some by {
                if m < i {
                    assert(before.lookup(es[m].0@) is Some);
                }
            }
        }
        i += 1;
    }
    assert forall|k: Seq<char>|
        match (#[trigger] out.lookup(k)) {
            Some(t) => findings.lookup(k) is Some && tells(findings.lookup(k).unwrap()@)
                && holds_intents(t, findings.lookup(k).unwrap()@),
            None => findings.lookup(k) is None || !tells(findings.lookup(k).unwrap()@),
        } by {
        crate::assoc::lemma_key_from(es, k, 0);
    }
    out
}

// ---------------------------------------------------------------------------
// Beads rows
// ---------------------------------------------------------------------------

/// Leaves out the Beads rows of workspaces that another tracker owns.
pub fn wanted_beads(beads: Assoc<WorkspaceBeadsView>, sources: &Assoc<TaskSource>) -> (r: Assoc<
    WorkspaceBeadsView,
>)
    requires
        beads.well_formed(),
    ensures
        r.well_formed(),
        forall|k: Seq<char>| #[trigger]
            r.lookup(k) == (if beads_wanted(sources.lookup(k)) {
                beads.lookup(k)
            } else {
                None
            }),
{
    let ghost all = beads;
    let mut rest = beads;
    let mut out: Assoc<WorkspaceBeadsView> = Assoc::new();
    while rest.entries.len() > 0
        invariant
            rest.well_formed(),
            out.well_formed(),
            forall|k: Seq<char>|
                if (#[trigger] rest.lookup(k)) is Some {
                    rest.lookup(k) == all.lookup(k) && out.lookup(k) is None
                } else {
                    out.lookup(k) == (if beads_wanted(sources.lookup(k)) {
                        all.lookup(k)
                    } else {
                        None
                    })
                },
        decreases rest.entries@.len(),
    {
        let id = rest.entries[0].0.clone();
        let ghost rest0 = rest;
        let ghost out0 = out;
        assert(rest.lookup(id@) is Some);
        if let Some(view) = rest.remove(id.as_str()) {
            let wanted = shows_beads(sources.get(id.as_str()));
            if wanted {
                out.insert(id, view);
            }
            assert forall|k: Seq<char>|
                if (#[trigger] rest.lookup(k)) is Some {
                    rest.lookup(k) == all.lookup(k) && out.lookup(k) is None
                } else {
                    out.lookup(k) == (if beads_wanted(sources.lookup(k)) {
                        all.lookup(k)
                    } else {
                        None
                    })
                } by {
                if k != id@ {
                    assert(rest.lookup(k) == rest0.lookup(k));
                    assert(out.lookup(k) == out0.lookup(k));
                } else {
                    assert(rest0.lookup(k) == all.lookup(k));
                    assert(out0.lookup(k) is None);
                }
            }
        }
    }
    assert forall|k: Seq<char>| #[trigger]
        out.lookup(k) == (if beads_wanted(sources.lookup(k)) {
            all.lookup(k)
        } else {
            None
        }) by {
        assert(rest.lookup(k) is None);
    }
    out
}

// ---------------------------------------------------------------------------
// The snapshot
// ---------------------------------------------------------------------------

/// Why a strict refresh of what was read fails: the surfaces could not be read, some
/// workspace has none, or there are none at all.
pub open spec fn strict_failure_of(
    workspaces: Seq<Workspace>,
    surfaces: Option<Assoc<Vec<SurfaceInfo>>>,
) -> Option<Seq<char>> {
    if surfaces is None {
        Some("get cmux surfaces"@)
    } else if left_out(workspaces, surfaces).len() > 0 {
        Some(
            "cmux tree missing workspaces from current window: "@ + join(
                left_out(workspaces, surfaces),
                ", "@,
            ),
        )
    } else if none_found(workspaces, surfaces) {
        Some("cmux tree reported no surfaces for current window"@)
    } else {
        None
    }
}

/// The snapshot holds what was gathered.
pub open spec fn assembled(g: Gathered, snap: RefreshSnapshot) -> bool {
    &&& snap.well_formed()
    &&& snap.workspaces == g.workspaces
    &&& match g.surfaces {
        Some(m) => snap.surfaces_map == m,
        None => snap.surfaces_map.entries@.len() == 0,
    }
    &&& forall|k: Seq<char>| #[trigger]
        snap.sessions_by_ws_id.lookup(k) == (if is_known(g.workspaces@, k) {
            session_from(g.session_files@, k, 0)
        } else {
            None
        })
    &&& forall|k: Seq<char>| #[trigger]
        snap.beads_by_ws_id.lookup(k) == (if beads_wanted(g.sources.lookup(k)) {
            g.beads.lookup(k)
        } else {
            None
        })
    &&& forall|k: Seq<char>|
        (match #[trigger] snap.linear_by_ws_id.lookup(k) {
            Some(v) => Some(v@),
            None => None,
        }) == view_for(
            grouped(g.sources.entries@, g.sources.entries@.len() as int),
            g.answers@,
            g.sources.lookup(k),
        )
    &&& forall|k: Seq<char>|
        match (#[trigger] snap.surface_intents_by_ws_id.lookup(k)) {
            Some(t) => g.findings.lookup(k) is Some && tells(g.findings.lookup(k).unwrap()@)
                && holds_intents(t, g.findings.lookup(k).unwrap()@),
            None => g.findings.lookup(k) is None || !tells(g.findings.lookup(k).unwrap()@),
        }
    &&& snap.remote_mesh == g.mesh
    &&& snap.mesh_warning == g.mesh_warning
}

/// Puts a refresh together. A strict one fails when the surfaces cannot be relied on;
/// otherwise it goes on with what is there.
pub fn assemble_snapshot(g: Gathered, strict: bool) -> (r: Result<RefreshSnapshot, String>)
    requires
        g.well_formed(),
    ensures
        match r {
            Ok(snap) => (strict ==> strict_failure_of(g.workspaces@, g.surfaces) is None)
                && assembled(g, snap),
            Err(m) => strict && strict_failure_of(g.workspaces@, g.surfaces) == Some(m@),
        },
{
    let report = match &g.surfaces {
        Some(m) => surface_report(&g.workspaces, Some(m)),
        None => surface_report(&g.workspaces, None),
    };
    assert(crate::text::views(report.missing@).len() == report.missing@.len());
    if strict {
        if let Some(m) = report.strict_failure() {
            return Err(m);
        }
    }
    let sessions_by_ws_id = sessions_by_workspace(&g.workspaces, g.session_files);
    let linear_by_ws_id = gather_linear_views(&g.sources, &g.answers);
    let surface_intents_by_ws_id = intents_by_workspace(&g.findings);
    let beads_by_ws_id = wanted_beads(g.beads, &g.sources);
    Ok(
        RefreshSnapshot {
            workspaces: g.workspaces,
            surfaces_map: match g.surfaces {
                Some(m) => m,
                None => Assoc::new(),
            },
            sessions_by_ws_id,
            beads_by_ws_id,
            linear_by_ws_id,
            surface_intents_by_ws_id,
            remote_mesh: g.mesh,
            mesh_warning: g.mesh_warning,
        },
    )
}

/// No workspace shows the rows of two trackers: a snapshot never holds Beads rows
/// beside Linear rows.
pub proof fn one_tracker_per_workspace(g: Gathered, snap: RefreshSnapshot, k: Seq<char>)
    requires
        assembled(g, snap),
    ensures
        snap.linear_by_ws_id.lookup(k) is Some ==> snap.beads_by_ws_id.lookup(k) is None,
{
    let v = snap.linear_by_ws_id.lookup(k);
    assert(v is Some ==> view_for(
        grouped(g.sources.entries@, g.sources.entries@.len() as int),
        g.answers@,
        g.sources.lookup(k),
    ) is Some);
    let b = snap.beads_by_ws_id.lookup(k);
}

} // verus!
