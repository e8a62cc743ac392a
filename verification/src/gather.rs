//! What a refresh decides while it gathers: whether the surfaces can be relied on,
//! which session a surface belongs to, and which workspaces show Beads rows.
use crate::app::App;
use crate::assoc::Assoc;
use crate::intent::{known, known_intent, ConversationIntent};
use crate::search::{join, join_strings};
use crate::surface::{SurfaceInfo, SurfaceKind};
use crate::tasks::TaskSource;
use crate::text::{
    ascii_lowered, concat2, lemma_views_push, lower_ascii, opt_view, trim, trim_str, views,
};
use crate::workspace::{Focus, Workspace};
use vstd::prelude::*;

verus! {

// ---------------------------------------------------------------------------
// Surfaces
// ---------------------------------------------------------------------------

/// The first window reference among the workspaces from `i` on.
pub open spec fn first_window_ref(s: Seq<Workspace>, i: int) -> Option<Seq<char>>
    decreases s.len() - i,
{
    if i < 0 || i >= s.len() {
        None
    } else if s[i].window_ref is Some {
        opt_view(s[i].window_ref)
    } else {
        first_window_ref(s, i + 1)
    }
}

/// The window whose surfaces are asked for.
pub fn expected_window_ref(workspaces: &Vec<Workspace>) -> (r: Option<String>)
    ensures
        opt_view(r) == first_window_ref(workspaces@, 0),
{
    let mut i: usize = 0;
    while i < workspaces.len()
        invariant
            i <= workspaces@.len(),
            first_window_ref(workspaces@, 0) == first_window_ref(workspaces@, i as int),
        decreases workspaces@.len() - i,
    {
        if let Some(w) = &workspaces[i].window_ref {
            return Some(w.clone());
        }
        i += 1;
    }
    None
}

/// The references of those among the first `n` workspaces that have no entry.
pub open spec fn missing_refs(
    s: Seq<Workspace>,
    map: Assoc<Vec<SurfaceInfo>>,
    n: int,
) -> Seq<Seq<char>>
    decreases n,
{
    if n <= 0 {
        Seq::empty()
    } else if map.has_key(s[n - 1].ref_id@) {
        missing_refs(s, map, n - 1)
    } else {
        missing_refs(s, map, n - 1).push(s[n - 1].ref_id@)
    }
}

/// No entry holds a surface.
pub open spec fn no_surfaces(map: Assoc<Vec<SurfaceInfo>>) -> bool {
    forall|i: int| 0 <= i < map.entries@.len() ==> (#[trigger] map.entries@[i]).1@.len() == 0
}

fn missing_from(workspaces: &Vec<Workspace>, map: &Assoc<Vec<SurfaceInfo>>) -> (r: Vec<String>)
    ensures
        views(r@) == missing_refs(workspaces@, *map, workspaces@.len() as int),
{
    let mut out: Vec<String> = Vec::new();
    let mut i: usize = 0;
    assert(views(out@) =~= Seq::<Seq<char>>::empty());
    while i < workspaces.len()
        invariant
            i <= workspaces@.len(),
            views(out@) == missing_refs(workspaces@, *map, i as int),
        decreases workspaces@.len() - i,
    {
        if !map.contains_key(workspaces[i].ref_id.as_str()) {
            let id = workspaces[i].ref_id.clone();
            proof {
                lemma_views_push(out@, id);
            }
            out.push(id);
        }
        i += 1;
    }
    out
}

fn holds_none(map: &Assoc<Vec<SurfaceInfo>>) -> (r: bool)
    ensures
        r == no_surfaces(*map),
{
    let mut i: usize = 0;
    while i < map.entries.len()
        invariant
            i <= map.entries@.len(),
            forall|k: int| 0 <= k < i ==> (#[trigger] map.entries@[k]).1@.len() == 0,
        decreases map.entries@.len() - i,
    {
        if map.entries[i].1.len() > 0 {
            assert(map.entries@[i as int].1@.len() > 0);
            return false;
        }
        i += 1;
    }
    true
}

fn all_refs(workspaces: &Vec<Workspace>) -> (r: Vec<String>)
    ensures
        views(r@) == workspaces@.map_values(|w: Workspace| w.ref_id@),
{
    let ghost want = workspaces@.map_values(|w: Workspace| w.ref_id@);
    let mut out: Vec<String> = Vec::new();
    let mut i: usize = 0;
    while i < workspaces.len()
        invariant
            i <= workspaces@.len(),
            want == workspaces@.map_values(|w: Workspace| w.ref_id@),
            views(out@) =~= want.take(i as int),
        decreases workspaces@.len() - i,
    {
        let id = workspaces[i].ref_id.clone();
        proof {
            lemma_views_push(out@, id);
        }
        out.push(id);
        i += 1;
    }
    assert(views(out@) =~= want);
    out
}

/// What is wrong with the surfaces that were read.
#[derive(Debug, PartialEq, Eq)]
pub struct SurfaceReport {
    /// They could not be read.
    pub unread: bool,
    /// The workspaces that have none of them.
    pub missing: Vec<String>,
    /// There are workspaces, but no surfaces at all.
    pub empty: bool,
}

/// The workspaces without an entry; all of them when nothing was read.
pub open spec fn left_out(s: Seq<Workspace>, read: Option<Assoc<Vec<SurfaceInfo>>>) -> Seq<Seq<char>> {
    match read {
        Some(map) => missing_refs(s, map, s.len() as int),
        None => s.map_values(|w: Workspace| w.ref_id@),
    }
}

/// There are workspaces, but no surfaces.
pub open spec fn none_found(s: Seq<Workspace>, read: Option<Assoc<Vec<SurfaceInfo>>>) -> bool {
    s.len() > 0 && match read {
        Some(map) => no_surfaces(map),
        None => true,
    }
}

/// Looks for what is wrong with the surfaces that were read; `None` when they could
/// not be.
pub fn surface_report(
    workspaces: &Vec<Workspace>,
    read: Option<&Assoc<Vec<SurfaceInfo>>>,
) -> (r: SurfaceReport)
    ensures
        ({
            let seen = match read {
                Some(m) => Some(*m),
                None => None,
            };
            &&& r.unread == (read is None)
            &&& views(r.missing@) == left_out(workspaces@, seen)
            &&& r.empty == none_found(workspaces@, seen)
        }),
{
    SurfaceReport {
        unread: read.is_none(),
        missing: match read {
            Some(map) => missing_from(workspaces, map),
            None => all_refs(workspaces),
        },
        empty: workspaces.len() > 0 && match read {
            Some(map) => holds_none(map),
            None => true,
        },
    }
}

impl SurfaceReport {
    /// The surfaces can be relied on.
    pub open spec fn is_reliable(self) -> bool {
        !self.unread && self.missing@.len() == 0 && !self.empty
    }

    /// Whether the surfaces can be relied on; only then are they recorded.
    pub fn reliable(&self) -> (r: bool)
        ensures
            r == self.is_reliable(),
    {
        !self.unread && self.missing.len() == 0 && !self.empty
    }

    /// Why a strict refresh fails: the first thing that is wrong.
    pub open spec fn failure(self) -> Option<Seq<char>> {
        if self.unread {
            Some("get cmux surfaces"@)
        } else if self.missing@.len() > 0 {
            Some(
                "cmux tree missing workspaces from current window: "@ + join(
                    views(self.missing@),
                    ", "@,
                ),
            )
        } else if self.empty {
            Some("cmux tree reported no surfaces for current window"@)
        } else {
            None
        }
    }

    /// Why a strict refresh fails; it does exactly when the surfaces cannot be
    /// relied on.
    pub fn strict_failure(&self) -> (r: Option<String>)
        ensures
            opt_view(r) == self.failure(),
            r is None == self.is_reliable(),
    {
        if self.unread {
            Some(String::from_str("get cmux surfaces"))
        } else if self.missing.len() > 0 {
            Some(
                concat2(
                    "cmux tree missing workspaces from current window: ",
                    join_strings(&self.missing, ", ").as_str(),
                ),
            )
        } else if self.empty {
            Some(String::from_str("cmux tree reported no surfaces for current window"))
        } else {
            None
        }
    }
}

// ---------------------------------------------------------------------------
// Surfaces and sessions
// ---------------------------------------------------------------------------

/// Where a surface's session is looked up.
#[derive(Debug, PartialEq, Eq)]
pub enum SessionRoute {
    /// No agent runs in the surface.
    NoAgent,
    /// The transcript that is bound to it tells this.
    Bound(ConversationIntent),
    /// The session log that matches it is looked up; this is its position among the
    /// earlier surfaces of its kind.
    Lookup(usize),
}

/// How many of the first `n` surfaces have the kind.
pub open spec fn count_kind(kinds: Seq<SurfaceKind>, kind: SurfaceKind, n: int) -> nat
    decreases n,
{
    if n <= 0 {
        0
    } else {
        count_kind(kinds, kind, n - 1) + (if kinds[n - 1] == kind {
            1nat
        } else {
            0nat
        })
    }
}

/// The intent of a bound transcript: a cached summary is the overall goal.
pub open spec fn bound_intent(i: ConversationIntent, cached: Option<String>) -> ConversationIntent {
    match cached {
        Some(s) => ConversationIntent { overall_goal: Some(s), ..i },
        None => i,
    }
}

/// Where the session of surface `i` is looked up. `kinds` are the kinds of the
/// workspace's surfaces; `bound` is what the transcript that is bound to the surface
/// tells, if there is one. The binding wins whenever it tells anything.
pub open spec fn route(
    kinds: Seq<SurfaceKind>,
    i: int,
    bound: Option<ConversationIntent>,
    cached: Option<String>,
) -> SessionRoute {
    if !kinds[i].is_agent_spec() {
        SessionRoute::NoAgent
    } else if bound is Some && known(bound_intent(bound.unwrap(), cached)) is Some {
        SessionRoute::Bound(bound_intent(bound.unwrap(), cached))
    } else {
        SessionRoute::Lookup(count_kind(kinds, kinds[i], i) as usize)
    }
}

/// Where the session of a surface is looked up.
pub fn session_route(
    kinds: &Vec<SurfaceKind>,
    i: usize,
    bound: Option<ConversationIntent>,
    cached: Option<String>,
) -> (r: SessionRoute)
    requires
        i < kinds@.len(),
    ensures
        r == route(kinds@, i as int, bound, cached),
{
    if !kinds[i].is_agent() {
        return SessionRoute::NoAgent;
    }
    if let Some(b) = bound {
        let mut intent = b;
        if cached.is_some() {
            intent.overall_goal = cached;
        }
        if let Some(k) = known_intent(intent) {
            return SessionRoute::Bound(k);
        }
    }
    let mut count: usize = 0;
    let mut k: usize = 0;
    while k < i
        invariant
            k <= i < kinds@.len(),
            count <= k,
            count == count_kind(kinds@, kinds@[i as int], k as int),
        decreases i - k,
    {
        if kinds[k] == kinds[i] {
            count += 1;
        }
        k += 1;
    }
    SessionRoute::Lookup(count)
}

/// Two surfaces of a workspace that are both agents of one kind never look up the
/// same session log.
pub proof fn lookups_differ(kinds: Seq<SurfaceKind>, i: int, j: int)
    requires
        0 <= i < j < kinds.len(),
        kinds[i] == kinds[j],
    ensures
        count_kind(kinds, kinds[i], i) < count_kind(kinds, kinds[j], j),
{
    lemma_count_grows(kinds, kinds[i], i + 1, j);
}

proof fn lemma_count_grows(kinds: Seq<SurfaceKind>, kind: SurfaceKind, a: int, b: int)
    requires
        0 <= a <= b <= kinds.len(),
    ensures
        count_kind(kinds, kind, a) <= count_kind(kinds, kind, b),
    decreases b - a,
{
    if a < b {
        lemma_count_grows(kinds, kind, a, b - 1);
    }
}

// ---------------------------------------------------------------------------
// Beads rows and the change gate of summaries
// ---------------------------------------------------------------------------

/// A workspace shows Beads rows unless Linear is its tracker.
pub open spec fn beads_wanted(source: Option<TaskSource>) -> bool {
    match source {
        Some(TaskSource::Linear(_)) => false,
        Some(TaskSource::LinearUnavailable) => false,
        _ => true,
    }
}

/// Whether a workspace shows Beads rows.
pub fn shows_beads(source: Option<&TaskSource>) -> (r: bool)
    ensures
        r == beads_wanted(
            match source {
                Some(s) => Some(*s),
                None => None,
            },
        ),
{
    match source {
        Some(TaskSource::Linear(_)) => false,
        Some(TaskSource::LinearUnavailable) => false,
        _ => true,
    }
}

/// User turns after which a session's overall summary is made again.
pub const OVERALL_SUMMARY_EVERY: usize = 4;

/// A summary is due: there are turns, and no summary or enough turns since.
pub open spec fn overall_due(turns: int, summarized: int) -> bool {
    turns > 0 && (summarized == 0 || turns - summarized >= OVERALL_SUMMARY_EVERY)
}

/// Whether a session's overall summary is due, given how many turns the last one
/// covered.
pub fn overall_summary_due(turns: usize, summarized: usize) -> (r: bool)
    ensures
        r == overall_due(turns as int, summarized as int),
{
    turns > 0 && (summarized == 0 || turns.saturating_sub(summarized) >= OVERALL_SUMMARY_EVERY)
}

/// The transcript that the multiplexer bound to a surface.
#[derive(Debug)]
pub struct BoundTranscript {
    pub agent: SurfaceKind,
    pub path: Option<String>,
}

/// The agent and transcript of a surface; `kind` is the surface's kind, an agent that
/// left it a moment ago counted in.
pub open spec fn transcript_of(
    s: SurfaceInfo,
    kind: SurfaceKind,
    bound: Assoc<BoundTranscript>,
) -> Option<(SurfaceKind, Seq<char>)> {
    if !kind.is_agent_spec() || s.uuid is None {
        None
    } else {
        match bound.lookup(s.uuid.unwrap()@) {
            Some(b) => match b.path {
                Some(p) => Some((b.agent, p@)),
                None => None,
            },
            None => None,
        }
    }
}

/// The agents and transcripts of the first `n` surfaces.
pub open spec fn transcripts(
    s: Seq<SurfaceInfo>,
    kinds: Seq<SurfaceKind>,
    bound: Assoc<BoundTranscript>,
    n: int,
) -> Seq<(SurfaceKind, Seq<char>)>
    decreases n,
{
    if n <= 0 {
        Seq::empty()
    } else {
        match transcript_of(s[n - 1], kinds[n - 1], bound) {
            Some(t) => transcripts(s, kinds, bound, n - 1).push(t),
            None => transcripts(s, kinds, bound, n - 1),
        }
    }
}

/// Agents and texts.
pub open spec fn target_views(s: Seq<(SurfaceKind, String)>) -> Seq<(SurfaceKind, Seq<char>)> {
    s.map_values(|t: (SurfaceKind, String)| (t.0, t.1@))
}

fn bound_transcript(s: &SurfaceInfo, kind: SurfaceKind, bound: &Assoc<BoundTranscript>) -> (r:
    Option<(SurfaceKind, String)>)
    ensures
        match r {
            Some(t) => transcript_of(*s, kind, *bound) == Some((t.0, t.1@)),
            None => transcript_of(*s, kind, *bound) is None,
        },
{
    if !kind.is_agent() {
        return None;
    }
    match &s.uuid {
        Some(uuid) => match bound.get(uuid.as_str()) {
            Some(b) => match &b.path {
                Some(p) => Some((b.agent, p.clone())),
                None => None,
            },
            None => None,
        },
        None => None,
    }
}

impl App {
    /// The transcripts to summarize: those of the selected workspace's agents while
    /// its detail pane is open. `kinds` are the kinds of its surfaces, agents that left
    /// a moment ago counted in.
    pub fn overall_summary_targets(
        &self,
        kinds: &Vec<SurfaceKind>,
        bound: &Assoc<BoundTranscript>,
    ) -> (r: Vec<(SurfaceKind, String)>)
        requires
            self.selected < self.workspaces@.len() ==> kinds@.len()
                == self.workspaces@[self.selected as int].surfaces@.len(),
        ensures
            target_views(r@) == (if self.focus == Focus::Detail && self.selected
                < self.workspaces@.len() {
                let s = self.workspaces@[self.selected as int].surfaces@;
                transcripts(s, kinds@, *bound, s.len() as int)
            } else {
                Seq::empty()
            }),
    {
        let mut out: Vec<(SurfaceKind, String)> = Vec::new();
        assert(target_views(out@) =~= Seq::<(SurfaceKind, Seq<char>)>::empty());
        if self.focus != Focus::Detail || self.selected >= self.workspaces.len() {
            return out;
        }
        let surfaces = &self.workspaces[self.selected].surfaces;
        let mut i: usize = 0;
        while i < surfaces.len()
            invariant
                i <= surfaces@.len() == kinds@.len(),
                target_views(out@) == transcripts(surfaces@, kinds@, *bound, i as int),
            decreases surfaces@.len() - i,
        {
            if let Some(t) = bound_transcript(&surfaces[i], kinds[i], bound) {
                let ghost before = out@;
                out.push(t);
                assert(target_views(out@) =~= target_views(before).push((t.0, t.1@)));
            }
            i += 1;
        }
        out
    }
}

/// The short name of the local machine: what it calls itself, in lower case.
pub open spec fn short_name(output: Option<String>) -> Seq<char> {
    match output {
        Some(s) => ascii_lowered(trim(s@)),
        None => "localhost"@,
    }
}

/// The short name of the local machine, from what `hostname -s` printed.
pub fn hostname_short(output: Option<String>) -> (r: String)
    ensures
        r@ == short_name(output),
{
    match output {
        Some(s) => lower_ascii(trim_str(s.as_str()).as_str()),
        None => String::from_str("localhost"),
    }
}

} // verus!
