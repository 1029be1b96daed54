use vstd::prelude::*;
use crate::engine::node_states::NodeStates;
use crate::nodes::id::NodeId;
use crate::payload::Json;

verus! {

/// `uuid::Uuid`, an identifier. Proofs see nothing inside it.
#[verifier::external_type_specification]
#[verifier::external_body]
pub struct ExUuid(uuid::Uuid);

/// `time::OffsetDateTime`, a point in time. Proofs see nothing inside it.
#[verifier::external_type_specification]
#[verifier::external_body]
pub struct ExOffsetDateTime(time::OffsetDateTime);

/// `Uuid::new_v4`: a random identifier. Nothing is promised of which.
pub assume_specification[ uuid::Uuid::new_v4 ]() -> (id: uuid::Uuid);

/// `OffsetDateTime::now_utc`: the current time. Nothing is promised of which.
pub assume_specification[ time::OffsetDateTime::now_utc ]() -> (now: time::OffsetDateTime);

/// `OffsetDateTime::clone`: the same point in time.
pub assume_specification[ <time::OffsetDateTime as Clone>::clone ](
    t: &time::OffsetDateTime,
) -> (copy: time::OffsetDateTime)
    ensures
        copy == *t,
;

/// The identity of one run of a workflow.
#[derive(Debug, Clone, Copy)]
pub struct WorkflowId(pub uuid::Uuid);

impl WorkflowId {
    /// A fresh random identity.
    pub fn random() -> Self {
        WorkflowId(uuid::Uuid::new_v4())
    }
}

/// The name of a workflow definition.
#[derive(Debug, Clone, PartialEq, Eq, Hash)]
pub struct WorkflowName(pub String);

/// The version of a workflow definition.
#[derive(Debug, Clone, PartialEq, Eq, Hash)]
pub struct WorkflowVersion(pub String);

/// The document of an optional payload.
pub open spec fn opt_json(o: Option<serde_json::Value>) -> Option<Json> {
    match o {
        Some(v) => Some(crate::payload::json_view(v)),
        None => None,
    }
}

/// What a node state records, with each payload as the document it holds.
pub struct NodeStateView {
    pub started_at: Option<time::OffsetDateTime>,
    pub raw_input: Option<Json>,
    pub raw_output: Option<Json>,
    pub child_index: int,
    pub context: Json,
}

impl NodeStateView {
    /// The record of a node that was never visited.
    pub open spec fn blank() -> NodeStateView {
        NodeStateView {
            started_at: None,
            raw_input: None,
            raw_output: None,
            child_index: 0,
            context: Json::Null,
        }
    }
}

/// The progress of one node in one workflow.
#[derive(Debug)]
pub struct NodeState {
    /// When the node was first visited; unset until then.
    pub started_at: Option<time::OffsetDateTime>,
    pub raw_input: Option<serde_json::Value>,
    pub raw_output: Option<serde_json::Value>,
    /// The offset of the next child to visit.
    pub child_index: i32,
    pub context: serde_json::Value,
}

impl View for NodeState {
    type V = NodeStateView;

    open spec fn view(&self) -> NodeStateView {
        NodeStateView {
            started_at: self.started_at,
            raw_input: opt_json(self.raw_input),
            raw_output: opt_json(self.raw_output),
            child_index: self.child_index as int,
            context: crate::payload::json_view(self.context),
        }
    }
}

/// A copy of an optional payload.
pub fn copy_payload(o: &Option<serde_json::Value>) -> (r: Option<serde_json::Value>)
    ensures
        opt_json(r) == opt_json(*o),
{
    match o {
        Some(v) => Some(v.clone()),
        None => None,
    }
}

impl Default for NodeState {
    /// The record of a node that was never visited.
    fn default() -> (s: Self)
        ensures
            s@ == NodeStateView::blank(),
    {
        NodeState {
            started_at: None,
            raw_input: None,
            raw_output: None,
            child_index: 0,
            context: serde_json::Value::default(),
        }
    }
}

impl Clone for NodeState {
    fn clone(&self) -> (s: Self)
        ensures
            s@ == self@,
    {
        NodeState {
            started_at: self.started_at,
            raw_input: copy_payload(&self.raw_input),
            raw_output: copy_payload(&self.raw_output),
            child_index: self.child_index,
            context: self.context.clone(),
        }
    }
}

/// What a workflow state records.
pub struct WorkflowStateView {
    pub workflow_id: WorkflowId,
    pub workflow_name: Seq<char>,
    pub workflow_version: Seq<char>,
    pub current_node: NodeId,
    pub states: Map<u32, NodeStateView>,
}

/// The unit of persistence: the identity of a run, the node it stands at, and the state of
/// every node it has visited.
#[derive(Debug)]
pub struct WorkflowState {
    pub workflow_id: WorkflowId,
    pub workflow_name: WorkflowName,
    pub workflow_version: WorkflowVersion,
    pub current_node: NodeId,
    pub current_states: NodeStates,
}

impl View for WorkflowState {
    type V = WorkflowStateView;

    open spec fn view(&self) -> WorkflowStateView {
        WorkflowStateView {
            workflow_id: self.workflow_id,
            workflow_name: self.workflow_name.0@,
            workflow_version: self.workflow_version.0@,
            current_node: self.current_node,
            states: self.current_states@,
        }
    }
}

impl WorkflowState {
    /// A state with the identity `new_id` and the same progress.
    pub fn duplicate(&self, new_id: WorkflowId) -> (r: Self)
        ensures
            r@ == (WorkflowStateView { workflow_id: new_id, ..self@ }),
    {
        WorkflowState {
            workflow_id: new_id,
            workflow_name: WorkflowName(self.workflow_name.0.clone()),
            workflow_version: WorkflowVersion(self.workflow_version.0.clone()),
            current_node: self.current_node,
            current_states: self.current_states.clone(),
        }
    }
}

} // verus!
