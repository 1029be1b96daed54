//! The tick as mathematics: what one step of the processor does to the state it keeps.

use vstd::prelude::*;
use super::observer::LifecycleEvent;
use crate::errors::WorkflowError;
use crate::nodes::graph::GraphView;
use crate::nodes::id::NodeId;
use crate::nodes::kind::NodeKind;
use crate::payload::Json;
use crate::types::{NodeStateView, WorkflowStateView};

verus! {

/// Where a processor stands in its life.
#[derive(Debug, Clone, Copy, PartialEq, Eq, Structural)]
pub enum Status {
    Pending,
    Running,
    Waiting,
    Completed,
    Faulted,
}

/// What a processor keeps between ticks, the graph aside.
pub struct EngineView {
    pub status: Status,
    pub current: Option<NodeId>,
    pub workflow: WorkflowStateView,
}

/// What a tick reports: the node to process next, or the end of the walk with the
/// workflow's output.
pub enum Outcome {
    Next(NodeId),
    Done(Json),
}

/// The record of node `id`: what the states hold for it, or the blank record.
pub open spec fn record(states: Map<u32, NodeStateView>, id: NodeId) -> NodeStateView {
    if states.contains_key(id.0) {
        states[id.0]
    } else {
        NodeStateView::blank()
    }
}

/// The workflow's output: what the root has recorded, or `null`.
pub open spec fn output_of(g: GraphView, states: Map<u32, NodeStateView>) -> Json {
    match record(states, g.root).raw_output {
        Some(j) => j,
        None => Json::Null,
    }
}

/// The payload that a tick records for an effect: what the effect gave, or, for a
/// failure, the document `{"error": message}`.
pub open spec fn absorbed(result: Result<serde_json::Value, WorkflowError>) -> Json {
    match result {
        Ok(v) => crate::payload::json_view(v),
        Err(e) => crate::payload::error_json(e.spec_message()),
    }
}

/// The states after node `id` is visited at the time `now`: its record exists, and is
/// begun, at `now` unless it was begun before.
pub open spec fn arrive(states: Map<u32, NodeStateView>, id: NodeId, now: time::OffsetDateTime) -> Map<
    u32,
    NodeStateView,
> {
    let r = record(states, id);
    states.insert(
        id.0,
        NodeStateView { started_at: if r.started_at is None { Some(now) } else { r.started_at }, ..r },
    )
}

/// The states with `output` recorded as the output of node `id`.
pub open spec fn with_output(states: Map<u32, NodeStateView>, id: NodeId, output: Json) -> Map<
    u32,
    NodeStateView,
> {
    states.insert(id.0, NodeStateView { raw_output: Some(output), ..record(states, id) })
}

/// The states with the cursor of node `id` moved on by one child.
pub open spec fn with_child_consumed(states: Map<u32, NodeStateView>, id: NodeId) -> Map<
    u32,
    NodeStateView,
> {
    let r = record(states, id);
    states.insert(id.0, NodeStateView { child_index: r.child_index + 1, ..r })
}

/// The child that a flow node descends into next, if its cursor names one.
pub open spec fn next_child(g: GraphView, states: Map<u32, NodeStateView>, id: NodeId) -> Option<NodeId> {
    let i = record(states, id).child_index;
    if g.kinds[id.0 as int] is Flow && 0 <= i < g.children[id.0 as int].len() {
        Some(g.children[id.0 as int][i])
    } else {
        None
    }
}

/// The node that the next tick finishes: the current node, unless it is a flow node with
/// a child left to visit.
pub open spec fn finishing(g: GraphView, v: EngineView) -> Option<NodeId> {
    match v.current {
        Some(id) => if next_child(g, v.workflow.states, id) is None {
            Some(id)
        } else {
            None
        },
        None => None,
    }
}

/// The states after a flow node, all of whose children were visited, takes over the
/// output of its last child. Where it has no child, or the last child has no output, it
/// keeps what it had.
pub open spec fn rolled_up(g: GraphView, states: Map<u32, NodeStateView>, id: NodeId) -> Map<
    u32,
    NodeStateView,
> {
    let children = g.children[id.0 as int];
    if children.len() > 0 {
        match record(states, children.last()).raw_output {
            Some(out) => with_output(states, id, out),
            None => states,
        }
    } else {
        states
    }
}

/// Control goes back from the finished node `id` to its parent, whose cursor moves on; from
/// the root, the walk ends.
pub open spec fn handed_up(g: GraphView, status: Status, workflow: WorkflowStateView, id: NodeId) -> (
    EngineView,
    Outcome,
) {
    match g.parents[id.0 as int] {
        Some(p) => (
            EngineView {
                status,
                current: Some(p),
                workflow: WorkflowStateView {
                    current_node: p,
                    states: with_child_consumed(workflow.states, p),
                    ..workflow
                },
            },
            Outcome::Next(p),
        ),
        None => (
            EngineView { status, current: None, workflow },
            Outcome::Done(output_of(g, workflow.states)),
        ),
    }
}

/// One tick: the state after it and what it reports. `now` is the time of the tick and
/// `payload` what the effect gave; the latter matters only when the current node is an
/// effect node.
pub open spec fn tick_spec(g: GraphView, v: EngineView, now: time::OffsetDateTime, payload: Json) -> (
    EngineView,
    Outcome,
) {
    let status = if v.status == Status::Pending {
        Status::Running
    } else {
        v.status
    };
    match v.current {
        None => (
            EngineView { status: Status::Completed, ..v },
            Outcome::Done(output_of(g, v.workflow.states)),
        ),
        Some(id) => {
            let arrived = arrive(v.workflow.states, id, now);
            match g.kinds[id.0 as int] {
                NodeKind::Effect(_) => handed_up(
                    g,
                    status,
                    WorkflowStateView { states: with_output(arrived, id, payload), ..v.workflow },
                    id,
                ),
                NodeKind::Flow(_) => match next_child(g, arrived, id) {
                    Some(child) => (
                        EngineView {
                            status,
                            current: Some(child),
                            workflow: WorkflowStateView {
                                current_node: child,
                                states: arrived,
                                ..v.workflow
                            },
                        },
                        Outcome::Next(child),
                    ),
                    None => handed_up(
                        g,
                        status,
                        WorkflowStateView { states: rolled_up(g, arrived, id), ..v.workflow },
                        id,
                    ),
                },
            }
        },
    }
}

/// The events that a tick tells the observer, in their order.
pub open spec fn tick_events(g: GraphView, v: EngineView) -> Seq<LifecycleEvent> {
    let begin = if v.status == Status::Pending {
        seq![LifecycleEvent::WorkflowStarted]
    } else {
        Seq::empty()
    };
    match v.current {
        None => begin.push(LifecycleEvent::WorkflowCompleted),
        Some(id) => {
            let started = if record(v.workflow.states, id).started_at is None {
                begin.push(LifecycleEvent::TaskStarted(id))
            } else {
                begin
            };
            if finishing(g, v) is Some {
                started.push(LifecycleEvent::TaskCompleted(id))
            } else {
                started
            }
        },
    }
}

/// True when the next tick waits for an effect: the current node is an effect node.
pub open spec fn awaits_effect(g: GraphView, v: EngineView) -> bool {
    v.current matches Some(id) && g.kinds[id.0 as int] is Effect
}

/// True when a tick can be made: the current node is in the graph, and the cursor of the
/// node that the tick moves on, if any, is below the largest number it can hold.
pub open spec fn tickable(g: GraphView, v: EngineView) -> bool {
    &&& g.wf()
    &&& v.current matches Some(id) ==> {
        &&& g.has(id)
        &&& (finishing(g, v) is Some && g.parents[id.0 as int] is Some) ==> record(
            v.workflow.states,
            g.parents[id.0 as int]->0,
        ).child_index < i32::MAX
    }
}

} // verus!
