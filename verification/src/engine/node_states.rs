use vstd::prelude::*;
use std::collections::HashMap;
use crate::nodes::id::NodeId;
use super::model::record;
use crate::payload::json_view;
use crate::types::{copy_payload, opt_json, NodeState, NodeStateView};

verus! {

broadcast use vstd::std_specs::hash::group_hash_axioms;

/// The states of the nodes a workflow has visited, by the node's number.
#[derive(Debug)]
pub struct NodeStates(pub HashMap<u32, NodeState>);

impl View for NodeStates {
    type V = Map<u32, NodeStateView>;

    open spec fn view(&self) -> Map<u32, NodeStateView> {
        Map::new(|k: u32| self.0@.contains_key(k), |k: u32| self.0@[k]@)
    }
}

/// The root's first record: begun at `now`, with its input, nothing else.
pub open spec fn first_record(now: time::OffsetDateTime, raw_input: serde_json::Value) -> NodeStateView {
    NodeStateView {
        started_at: Some(now),
        raw_input: Some(json_view(raw_input)),
        ..NodeStateView::blank()
    }
}

impl Clone for NodeStates {
    fn clone(&self) -> (r: Self)
        ensures
            r@ == self@,
    {
        let r = NodeStates(self.0.clone());
        assert(r@ =~= self@);
        r
    }
}

impl NodeStates {
    /// The states of a workflow that is about to start: the root alone, begun now, with
    /// the workflow's input.
    pub fn new_for(root: NodeId, raw_input: serde_json::Value) -> (r: Self)
        ensures
            exists|now: time::OffsetDateTime|
                r@ == Map::<u32, NodeStateView>::empty().insert(
                    root.0,
                    #[trigger] first_record(now, raw_input),
                ),
    {
        let now = time::OffsetDateTime::now_utc();
        Self::new_at(root, raw_input, now)
    }

    /// Takes the record of node `id` out of the states; gives the blank record where there
    /// is none.
    pub fn take(&mut self, id: NodeId) -> (state: NodeState)
        ensures
            state@ == record(old(self)@, id),
            final(self)@ == old(self)@.remove(id.0),
    {
        let found = self.0.remove(&id.0);
        assert(final(self)@ =~= old(self)@.remove(id.0));
        match found {
            Some(state) => state,
            None => NodeState::default(),
        }
    }

    /// Sets the record of node `id`.
    pub fn put(&mut self, id: NodeId, state: NodeState)
        ensures
            final(self)@ == old(self)@.insert(id.0, state@),
    {
        self.0.insert(id.0, state);
        assert(final(self)@ =~= old(self)@.insert(id.0, state@));
    }

    /// The cursor of node `id`: the offset of its next child, 0 where it has no record.
    pub fn child_index(&self, id: NodeId) -> (i: i32)
        ensures
            i == record(self@, id).child_index,
    {
        match self.0.get(&id.0) {
            Some(state) => state.child_index,
            None => 0,
        }
    }

    /// A copy of the output of node `id`, if it has recorded one.
    pub fn output(&self, id: NodeId) -> (out: Option<serde_json::Value>)
        ensures
            opt_json(out) == record(self@, id).raw_output,
    {
        match self.0.get(&id.0) {
            Some(state) => copy_payload(&state.raw_output),
            None => None,
        }
    }

    /// The states of a workflow that starts at the time `now`: the root alone, with the
    /// workflow's input.
    pub fn new_at(root: NodeId, raw_input: serde_json::Value, now: time::OffsetDateTime) -> (r: Self)
        ensures
            r@ == Map::<u32, NodeStateView>::empty().insert(root.0, first_record(now, raw_input)),
    {
        let mut map = HashMap::new();
        let mut state = NodeState::default();
        state.started_at = Some(now);
        state.raw_input = Some(raw_input);
        map.insert(root.0, state);
        let r = NodeStates(map);
        assert(r@ =~= Map::<u32, NodeStateView>::empty().insert(
            root.0,
            first_record(now, raw_input),
        ));
        r
    }
}

} // verus!
