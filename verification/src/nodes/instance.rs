use vstd::prelude::*;
use super::id::NodeId;
use super::position::NodePosition;
use crate::types::{NodeState, NodeStateView};

verus! {

/// A node as it is seen while a workflow runs: what it is, and its state.
pub trait NodeInstance {
    fn id(&self) -> NodeId;

    fn name(&self) -> &str;

    fn position(&self) -> &NodePosition;

    fn state(&self) -> &NodeState;

    fn state_mut(&mut self) -> &mut NodeState;

    /// True when this kind of instance may decline to start. None does, unless its
    /// implementation says so here.
    open spec fn may_decline(&self) -> bool {
        false
    }

    /// Whether the node is to be started at all. The answer is yes for every instance that
    /// may not decline.
    fn should_start(&self) -> (start: bool)
        ensures
            !self.may_decline() ==> start,
    {
        true
    }
}

/// A node instance that holds its own copies of the node's name, position and state.
#[derive(Debug)]
pub struct SimpleInstance {
    pub id: NodeId,
    pub name: String,
    pub position: NodePosition,
    pub state: NodeState,
}

/// The state of an instance that was begun at `now`.
pub open spec fn begun(now: time::OffsetDateTime) -> NodeStateView {
    NodeStateView { started_at: Some(now), ..NodeStateView::blank() }
}

impl SimpleInstance {
    /// An instance that begins now.
    pub fn new(id: NodeId, name: &str, position: NodePosition) -> (r: Self)
        ensures
            r.id == id,
            r.name@ == name@,
            r.position@ == position@,
            exists|now: time::OffsetDateTime| r.state@ == #[trigger] begun(now),
    {
        let now = time::OffsetDateTime::now_utc();
        let r = Self::new_at(id, name, position, now);
        assert(r.state@ == begun(now));
        r
    }

    /// An instance that begins at the time `now`.
    pub fn new_at(id: NodeId, name: &str, position: NodePosition, now: time::OffsetDateTime) -> (r: Self)
        ensures
            r.id == id,
            r.name@ == name@,
            r.position == position,
            r.state@ == begun(now),
    {
        let mut state = NodeState::default();
        state.started_at = Some(now);
        SimpleInstance { id, name: name.to_owned(), position, state }
    }
}

impl NodeInstance for SimpleInstance {
    fn id(&self) -> (id: NodeId)
        ensures
            id == self.id,
    {
        self.id
    }

    fn name(&self) -> (s: &str)
        ensures
            s@ == self.name@,
    {
        self.name.as_str()
    }

    fn position(&self) -> (p: &NodePosition)
        ensures
            *p == self.position,
    {
        &self.position
    }

    fn state(&self) -> (s: &NodeState)
        ensures
            *s == self.state,
    {
        &self.state
    }

    fn state_mut(&mut self) -> (s: &mut NodeState)
        ensures
            *s == old(self).state,
            *final(self) == (SimpleInstance { state: *final(s), ..*old(self) }),
    {
        &mut self.state
    }
}

} // verus!
