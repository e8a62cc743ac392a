//! The prefixes of goal identifiers that are in use during one refresh, so that no two
//! workspaces get the same one.
use crate::app::is_inserting;
use crate::projection::is_open;
use crate::text::{lemma_views_push, push_once, views, with_once};
use crate::workspace::WorkspaceState;
use vstd::prelude::*;

verus! {

/// The prefixes in use once a workspace's own was added. A workspace that is not
/// projected into adds none.
pub open spec fn with_own(
    used: Seq<Seq<char>>,
    w: WorkspaceState,
    own: Option<Seq<char>>,
) -> Seq<Seq<char>> {
    match own {
        Some(p) => if is_open(w) {
            with_once(used, p)
        } else {
            used
        },
        None => used,
    }
}

/// Adds the prefix that a workspace already has to those in use.
pub fn carry_prefix(used: &mut Vec<String>, ws: &WorkspaceState, own: Option<&str>)
    ensures
        views(final(used)@) == with_own(
            views(old(used)@),
            *ws,
            match own {
                Some(p) => Some(p@),
                None => None,
            },
        ),
{
    if is_inserting(ws) || ws.peek_state.is_some() || ws.trajectory.is_none() {
        return;
    }
    if let Some(p) = own {
        push_once(used, p);
    }
}

/// Adds a prefix that was just picked to those in use.
pub fn record_prefix(used: &mut Vec<String>, picked: &str)
    ensures
        views(final(used)@) == views(old(used)@).push(picked@),
{
    let p = String::from_str(picked);
    proof {
        lemma_views_push(used@, p);
    }
    used.push(p);
}

/// What one workspace contributes during a refresh: the prefix that it has, or the one
/// that is picked for it.
pub struct PrefixStep {
    pub workspace: WorkspaceState,
    pub own: Option<Seq<char>>,
    pub picked: Option<Seq<char>>,
}

/// The prefixes that the pick for a workspace has to avoid.
pub open spec fn to_avoid(used: Seq<Seq<char>>, step: PrefixStep) -> Seq<Seq<char>> {
    with_own(used, step.workspace, step.own)
}

/// The prefixes in use after the first `n` workspaces.
pub open spec fn used_after(steps: Seq<PrefixStep>, n: int) -> Seq<Seq<char>>
    decreases n,
{
    if n <= 0 {
        Seq::empty()
    } else {
        let avoid = to_avoid(used_after(steps, n - 1), steps[n - 1]);
        match steps[n - 1].picked {
            Some(p) => avoid.push(p),
            None => avoid,
        }
    }
}

proof fn lemma_used_grows(steps: Seq<PrefixStep>, n: int, m: int, p: Seq<char>)
    requires
        0 <= n <= m <= steps.len(),
        used_after(steps, n).contains(p),
    ensures
        used_after(steps, m).contains(p),
        m < steps.len() ==> to_avoid(used_after(steps, m), steps[m]).contains(p),
    decreases m - n,
{
    if n < m {
        lemma_used_grows(steps, n, m - 1, p);
        let avoid = to_avoid(used_after(steps, m - 1), steps[m - 1]);
        let k = choose|k: int| 0 <= k < avoid.len() && avoid[k] == p;
        assert(used_after(steps, m)[k] == p);
    }
    let used = used_after(steps, m);
    if m < steps.len() {
        let k = choose|k: int| 0 <= k < used.len() && used[k] == p;
        assert(to_avoid(used, steps[m])[k] == p);
    }
}

/// Two workspaces of one refresh do not get the same prefix: a pick that avoids the
/// prefixes in use differs from every earlier pick, and from the prefix of every
/// earlier workspace that was projected into.
pub proof fn picked_prefixes_differ(steps: Seq<PrefixStep>, i: int, j: int)
    requires
        0 <= i < j < steps.len(),
        steps[j].picked is Some,
        !to_avoid(used_after(steps, j), steps[j]).contains(steps[j].picked.unwrap()),
    ensures
        steps[i].picked != steps[j].picked,
        is_open(steps[i].workspace) ==> steps[i].own != steps[j].picked,
{
    let avoid = to_avoid(used_after(steps, i), steps[i]);
    let after = used_after(steps, i + 1);
    let p = steps[j].picked.unwrap();
    if steps[i].picked == steps[j].picked {
        assert(after[avoid.len() as int] == p);
        lemma_used_grows(steps, i + 1, j, p);
    }
    if is_open(steps[i].workspace) && steps[i].own == steps[j].picked {
        let used = used_after(steps, i);
        if !used.contains(p) {
            assert(avoid[used.len() as int] == p);
        }
        let k = choose|k: int| 0 <= k < avoid.len() && avoid[k] == p;
        assert(after[k] == p);
        lemma_used_grows(steps, i + 1, j, p);
    }
}

} // verus!
