use vstd::prelude::*;
use crate::nodes::id::NodeId;
use crate::nodes::instance::SimpleInstance;

verus! {

/// What an observer can be told.
pub enum LifecycleEvent {
    WorkflowStarted,
    WorkflowCompleted,
    TaskStarted(NodeId),
    TaskCompleted(NodeId),
    TaskFaulted(NodeId),
}

/// The nodes whose completion the events tell, in the order of the events.
pub open spec fn completions(events: Seq<LifecycleEvent>) -> Seq<NodeId>
    decreases events.len(),
{
    if events.len() == 0 {
        Seq::empty()
    } else {
        let before = completions(events.drop_last());
        match events.last() {
            LifecycleEvent::TaskCompleted(id) => before.push(id),
            _ => before,
        }
    }
}

/// The completions told by two runs of events, one after the other, are those of the
/// first and then those of the second.
pub proof fn lemma_completions_add(a: Seq<LifecycleEvent>, b: Seq<LifecycleEvent>)
    ensures
        completions(a + b) == completions(a) + completions(b),
    decreases b.len(),
{
    if b.len() == 0 {
        assert(a + b =~= a);
        assert(completions(a) + completions(b) =~= completions(a));
    } else {
        lemma_completions_add(a, b.drop_last());
        assert((a + b).drop_last() =~= a + b.drop_last());
        assert((a + b).last() == b.last());
        match b.last() {
            LifecycleEvent::TaskCompleted(id) => {
                assert(completions(a) + completions(b.drop_last()).push(id) =~= (completions(a)
                    + completions(b.drop_last())).push(id));
            },
            _ => {},
        }
    }
}

/// A listener for the life of a workflow and of its tasks. The processor calls it in the
/// course of a tick; what it does has no effect on the walk.
pub trait LifecycleObserver {
    /// The workflow's first tick has begun.
    fn on_workflow_started(&mut self);

    /// The walk is over.
    fn on_workflow_completed(&mut self);

    /// A node is visited for the first time.
    fn on_task_started(&mut self, node: &SimpleInstance);

    /// A node is finished.
    fn on_task_completed(&mut self, node: &SimpleInstance);

    /// A node has failed.
    fn on_task_faulted(&mut self, node: &SimpleInstance);
}

/// The observer that does nothing.
#[derive(Debug, Clone, Copy)]
pub struct Silent;

impl LifecycleObserver for Silent {
    fn on_workflow_started(&mut self) {
    }

    fn on_workflow_completed(&mut self) {
    }

    fn on_task_started(&mut self, node: &SimpleInstance) {
    }

    fn on_task_completed(&mut self, node: &SimpleInstance) {
    }

    fn on_task_faulted(&mut self, node: &SimpleInstance) {
    }
}

} // verus!
