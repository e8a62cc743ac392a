//! What a cross-device handoff is made of: where it comes from, where it goes
//! and how it ended.
use crate::text::clone_opt;
use vstd::prelude::*;

verus! {

/// The address of a session on a device.
#[derive(Debug, PartialEq, Eq)]
pub struct RemoteSessionLocator {
    pub schema_version: u32,
    pub device_id: String,
    pub profile_scope: String,
    pub session_id: String,
    pub transport_binding_id: Option<String>,
}

impl Clone for RemoteSessionLocator {
    fn clone(&self) -> (r: Self)
        ensures
            r == *self,
    {
        RemoteSessionLocator {
            schema_version: self.schema_version,
            device_id: self.device_id.clone(),
            profile_scope: self.profile_scope.clone(),
            session_id: self.session_id.clone(),
            transport_binding_id: clone_opt(&self.transport_binding_id),
        }
    }
}

/// What was last seen of the source session.
#[derive(Debug, PartialEq, Eq)]
pub struct HandoffSourceObservation {
    pub turn_count: u64,
    pub updated_at: String,
    pub last_turn_end_at: Option<String>,
}

impl Clone for HandoffSourceObservation {
    fn clone(&self) -> (r: Self)
        ensures
            r == *self,
    {
        HandoffSourceObservation {
            turn_count: self.turn_count,
            updated_at: self.updated_at.clone(),
            last_turn_end_at: clone_opt(&self.last_turn_end_at),
        }
    }
}

/// The session that is handed off, and its context.
#[derive(Debug, PartialEq, Eq)]
pub struct HandoffSourceContext {
    pub workspace_uuid: String,
    pub surface_uuid: String,
    pub locator: RemoteSessionLocator,
    pub agent: String,
    pub project: String,
    pub goal: String,
    pub history: String,
    pub conversation_id: Option<String>,
    pub parent_handoff_id: Option<String>,
    pub validation: String,
    pub observation: HandoffSourceObservation,
}

impl Clone for HandoffSourceContext {
    fn clone(&self) -> (r: Self)
        ensures
            r == *self,
    {
        HandoffSourceContext {
            workspace_uuid: self.workspace_uuid.clone(),
            surface_uuid: self.surface_uuid.clone(),
            locator: self.locator.clone(),
            agent: self.agent.clone(),
            project: self.project.clone(),
            goal: self.goal.clone(),
            history: self.history.clone(),
            conversation_id: clone_opt(&self.conversation_id),
            parent_handoff_id: clone_opt(&self.parent_handoff_id),
            validation: self.validation.clone(),
            observation: self.observation.clone(),
        }
    }
}

/// The peer and the profile that take over.
#[derive(Debug, PartialEq, Eq)]
pub struct HandoffTarget {
    pub peer_id: String,
    pub profile: String,
}

impl Clone for HandoffTarget {
    fn clone(&self) -> (r: Self)
        ensures
            r == *self,
    {
        HandoffTarget { peer_id: self.peer_id.clone(), profile: self.profile.clone() }
    }
}

/// A confirmed handoff.
#[derive(Debug, PartialEq, Eq)]
pub struct HandoffPlan {
    pub source: HandoffSourceContext,
    pub target: HandoffTarget,
}

impl Clone for HandoffPlan {
    fn clone(&self) -> (r: Self)
        ensures
            r == *self,
    {
        HandoffPlan { source: self.source.clone(), target: self.target.clone() }
    }
}

/// How far a running handoff has come. Stages that only have a name are
/// `Named`.
#[derive(Debug, Clone, PartialEq, Eq)]
pub enum HandoffStage {
    Preparing,
    Launching,
    Named(String),
}

impl HandoffStage {
    /// The stage in words.
    pub open spec fn label_spec(self) -> Seq<char> {
        match self {
            HandoffStage::Preparing => "preparing"@,
            HandoffStage::Launching => "launching"@,
            HandoffStage::Named(s) => s@,
        }
    }

    /// The stage in words.
    pub fn label(&self) -> (r: String)
        ensures
            r@ == self.label_spec(),
    {
        match self {
            HandoffStage::Preparing => String::from_str("preparing"),
            HandoffStage::Launching => String::from_str("launching"),
            HandoffStage::Named(s) => s.clone(),
        }
    }
}

/// A session's address as it is shown.
#[derive(Debug, Clone, PartialEq, Eq)]
pub struct HandoffLocator {
    pub device_id: String,
    pub profile_scope: String,
    pub session_id: String,
}

impl HandoffLocator {
    /// Device, profile and session, separated by slashes.
    pub open spec fn shown(self) -> Seq<char> {
        self.device_id@ + "/"@ + self.profile_scope@ + "/"@ + self.session_id@
    }

    /// Device, profile and session, separated by slashes.
    pub fn display(&self) -> (r: String)
        ensures
            r@ == self.shown(),
    {
        let mut s = self.device_id.clone();
        s.append("/");
        s.append(self.profile_scope.as_str());
        s.append("/");
        s.append(self.session_id.as_str());
        s
    }
}

/// A handoff that went through.
#[derive(Debug, Clone, PartialEq, Eq)]
pub struct HandoffSuccess {
    pub source_locator: HandoffLocator,
    pub target_locator: HandoffLocator,
}

/// A handoff that did not.
#[derive(Debug, Clone, PartialEq, Eq)]
pub struct HandoffFailure {
    pub message: String,
    pub handoff_id: Option<String>,
    pub source_locator: HandoffLocator,
    pub target_locator: Option<HandoffLocator>,
    pub target_uncertain: bool,
    pub duplicate_live: bool,
    pub retryable: bool,
}

/// News of a running handoff.
#[derive(Debug, PartialEq, Eq)]
pub enum HandoffUpdateKind {
    Progress(HandoffStage),
    Finished(Result<HandoffSuccess, HandoffFailure>),
}

} // verus!
