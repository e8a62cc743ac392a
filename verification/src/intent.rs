//! What the user wants of an agent, as a surface's row tells it.
use crate::surface::{SurfaceInfo, SurfaceKind};
use crate::text::clone_opt;
use vstd::prelude::*;

verus! {

/// The overall goal of a conversation and the latest request.
#[derive(Debug, PartialEq, Eq)]
pub struct ConversationIntent {
    pub overall_goal: Option<String>,
    pub latest_ask: Option<String>,
}

impl Default for ConversationIntent {
    fn default() -> (r: Self)
        ensures
            r == (ConversationIntent { overall_goal: None, latest_ask: None }),
    {
        ConversationIntent { overall_goal: None, latest_ask: None }
    }
}

impl Clone for ConversationIntent {
    fn clone(&self) -> (r: Self)
        ensures
            r == *self,
    {
        ConversationIntent {
            overall_goal: clone_opt(&self.overall_goal),
            latest_ask: clone_opt(&self.latest_ask),
        }
    }
}

impl ConversationIntent {
    /// Nothing is known.
    pub open spec fn is_blank(self) -> bool {
        self.overall_goal is None && self.latest_ask is None
    }

    /// Whether nothing is known.
    pub fn blank(&self) -> (r: bool)
        ensures
            r == self.is_blank(),
    {
        self.overall_goal.is_none() && self.latest_ask.is_none()
    }
}

/// The intent, unless nothing is known.
pub open spec fn known(i: ConversationIntent) -> Option<ConversationIntent> {
    if i.is_blank() {
        None
    } else {
        Some(i)
    }
}

/// The intent of a session's text, unless nothing is known.
pub fn known_intent(intent: ConversationIntent) -> (r: Option<ConversationIntent>)
    ensures
        r == known(intent),
{
    if intent.blank() {
        None
    } else {
        Some(intent)
    }
}

/// What is told of an agent surface: its own session's intent; for the focused
/// surface also the workspace session's; the goal that is assigned to it where no
/// overall goal is known; and, for the focused surface, the request on the screen
/// where no other is known.
pub open spec fn told_intent(
    resolved: Option<ConversationIntent>,
    session: Option<ConversationIntent>,
    screen_ask: Option<String>,
    focused: bool,
    kind: SurfaceKind,
    goal: Option<String>,
) -> Option<ConversationIntent> {
    if !kind.is_agent_spec() {
        None
    } else {
        let start = match resolved {
            Some(i) => i,
            None => match session {
                Some(i) if focused => i,
                _ => ConversationIntent { overall_goal: None, latest_ask: None },
            },
        };
        known(
            ConversationIntent {
                overall_goal: match start.overall_goal {
                    Some(g) => Some(g),
                    None => goal,
                },
                latest_ask: match start.latest_ask {
                    Some(a) => Some(a),
                    None => if focused {
                        screen_ask
                    } else {
                        None
                    },
                },
            },
        )
    }
}

/// What is told of a surface. The session intent and the request on the screen
/// describe the workspace's focused surface alone; `goal` is the first open goal
/// that is assigned to this one.
pub fn surface_intent_summary(
    resolved: Option<&ConversationIntent>,
    session: Option<&ConversationIntent>,
    screen_ask: &Option<String>,
    surface: &SurfaceInfo,
    effective_kind: SurfaceKind,
    goal: &Option<String>,
) -> (r: Option<ConversationIntent>)
    ensures
        r == told_intent(
            (match resolved {
                Some(i) => Some(*i),
                None => None,
            }),
            (match session {
                Some(i) => Some(*i),
                None => None,
            }),
            *screen_ask,
            surface.focused,
            effective_kind,
            *goal,
        ),
{
    if !effective_kind.is_agent() {
        return None;
    }
    let mut intent = match resolved {
        Some(i) => i.clone(),
        None => match session {
            Some(i) if surface.focused => i.clone(),
            _ => ConversationIntent { overall_goal: None, latest_ask: None },
        },
    };
    if intent.overall_goal.is_none() {
        intent.overall_goal = clone_opt(goal);
    }
    if intent.latest_ask.is_none() && surface.focused {
        intent.latest_ask = clone_opt(screen_ask);
    }
    known_intent(intent)
}

/// A surface that is not focused tells nothing that only the focused surface may:
/// neither the workspace session's intent nor the request on the screen changes it.
pub proof fn intent_stays_with_the_focused_surface(
    resolved: Option<ConversationIntent>,
    session: Option<ConversationIntent>,
    screen_ask: Option<String>,
    kind: SurfaceKind,
    goal: Option<String>,
)
    ensures
        told_intent(resolved, session, screen_ask, false, kind, goal) == told_intent(
            resolved,
            None,
            None,
            false,
            kind,
            goal,
        ),
{
}

/// What an agent surface's own session tells is told, part by part, whatever else is
/// known of the surface or the workspace.
pub proof fn the_surfaces_own_session_is_told(
    own: ConversationIntent,
    session: Option<ConversationIntent>,
    screen_ask: Option<String>,
    focused: bool,
    kind: SurfaceKind,
    goal: Option<String>,
)
    requires
        kind == SurfaceKind::Claude || kind == SurfaceKind::Codex || kind == SurfaceKind::OtherAgent,
        own.overall_goal is Some || own.latest_ask is Some,
    ensures
        ({
            let told = told_intent(Some(own), session, screen_ask, focused, kind, goal);
            &&& told is Some
            &&& own.overall_goal is Some ==> told.unwrap().overall_goal == own.overall_goal
            &&& own.latest_ask is Some ==> told.unwrap().latest_ask == own.latest_ask
        }),
{
}

/// A part that the own session does not tell comes from elsewhere: the goal from what
/// is assigned, the request from the screen of the focused surface. The workspace's
/// session is not asked for it.
pub proof fn an_untold_part_comes_from_elsewhere(
    own: ConversationIntent,
    session: Option<ConversationIntent>,
    screen_ask: Option<String>,
    focused: bool,
    kind: SurfaceKind,
    goal: Option<String>,
)
    requires
        kind == SurfaceKind::Claude || kind == SurfaceKind::Codex || kind == SurfaceKind::OtherAgent,
    ensures
        ({
            let told = told_intent(Some(own), session, screen_ask, focused, kind, goal);
            &&& own.overall_goal is None && told is Some ==> told.unwrap().overall_goal == goal
            &&& own.latest_ask is None && focused && told is Some ==> told.unwrap().latest_ask
                == screen_ask
            &&& own.latest_ask is None && !focused && told is Some ==> told.unwrap().latest_ask
                is None
            &&& own.overall_goal is None && goal is Some ==> told is Some
            &&& own.latest_ask is None && focused && screen_ask is Some ==> told is Some
            &&& own.overall_goal is None && goal is None && own.latest_ask is None && !(focused
                && screen_ask is Some) ==> told is None
        }),
{
}

/// Without a session of its own, the focused surface tells what the workspace's session
/// tells, and any other surface only the goal that is assigned to it.
pub proof fn the_focused_surface_speaks_for_the_workspace(
    session: ConversationIntent,
    screen_ask: Option<String>,
    kind: SurfaceKind,
    goal: Option<String>,
)
    requires
        kind == SurfaceKind::Claude || kind == SurfaceKind::Codex || kind == SurfaceKind::OtherAgent,
    ensures
        session.overall_goal is Some || session.latest_ask is Some ==> {
            let told = told_intent(None, Some(session), screen_ask, true, kind, goal);
            &&& told is Some
            &&& session.overall_goal is Some ==> told.unwrap().overall_goal == session.overall_goal
            &&& session.latest_ask is Some ==> told.unwrap().latest_ask == session.latest_ask
        },
        ({
            let told = told_intent(None, Some(session), screen_ask, false, kind, goal);
            &&& told is Some <==> goal is Some
            &&& told is Some ==> told.unwrap().overall_goal == goal
            &&& told is Some ==> told.unwrap().latest_ask is None
        }),
{
}

/// Nothing is told of a surface in which no agent runs.
pub proof fn only_agents_are_told_of(
    resolved: Option<ConversationIntent>,
    session: Option<ConversationIntent>,
    screen_ask: Option<String>,
    focused: bool,
    kind: SurfaceKind,
    goal: Option<String>,
)
    requires
        kind == SurfaceKind::Shell || kind == SurfaceKind::Remote || kind == SurfaceKind::Unknown,
    ensures
        told_intent(resolved, session, screen_ask, focused, kind, goal) is None,
{
}

} // verus!
