use vstd::prelude::*;
use vstd::std_specs::convert::FromSpecImpl;

verus! {

/// A dense, zero-based index into a node graph.
#[derive(Debug, Clone, Copy, PartialEq, Eq, Hash, Structural)]
pub struct NodeId(pub u32);

impl NodeId {
    /// The identifier with the given number.
    pub fn new(id: u32) -> (r: Self)
        ensures
            r == NodeId(id),
    {
        NodeId(id)
    }

    /// The position of the node in the graph's arrays.
    pub fn index(self) -> (i: usize)
        ensures
            i == self.0,
    {
        self.0 as usize
    }

    /// The identifier's number.
    pub fn as_u32(self) -> (v: u32)
        ensures
            v == self.0,
    {
        self.0
    }
}

impl From<usize> for NodeId {
    /// Keeps the low 32 bits of `value`.
    fn from(value: usize) -> (r: Self) {
        NodeId(value as u32)
    }
}

impl FromSpecImpl<usize> for NodeId {
    open spec fn obeys_from_spec() -> bool {
        true
    }

    open spec fn from_spec(value: usize) -> Self {
        NodeId(value as u32)
    }
}

} // verus!
