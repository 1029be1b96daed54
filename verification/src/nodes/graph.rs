use vstd::prelude::*;
use super::id::NodeId;
use super::kind::{FlowKind, NodeKind};
use super::position::NodePosition;

verus! {

/// What a graph holds, node by node: five sequences of one length and the root's identifier.
pub struct GraphView {
    pub kinds: Seq<NodeKind>,
    pub names: Seq<Seq<char>>,
    pub positions: Seq<Seq<Seq<char>>>,
    pub children: Seq<Seq<NodeId>>,
    pub parents: Seq<Option<NodeId>>,
    pub root: NodeId,
}

impl GraphView {
    /// The number of nodes.
    pub open spec fn len(self) -> nat {
        self.kinds.len()
    }

    /// True when `id` names a node of the graph.
    pub open spec fn has(self, id: NodeId) -> bool {
        (id.0 as int) < self.len()
    }

    /// The number of children of node `i`.
    pub open spec fn fanout(self, i: int) -> int {
        self.children[i].len() as int
    }

    /// The arrays are aligned and every identifier in them names a node of the graph.
    pub open spec fn wf(self) -> bool {
        &&& self.len() >= 1
        &&& self.len() <= 0x1_0000_0000
        &&& self.names.len() == self.len()
        &&& self.positions.len() == self.len()
        &&& self.children.len() == self.len()
        &&& self.parents.len() == self.len()
        &&& self.has(self.root)
        &&& forall|i: int, k: int|
            0 <= i < self.len() && 0 <= k < self.children[i].len() ==> self.has(
                #[trigger] self.children[i][k],
            )
        &&& forall|i: int|
            0 <= i < self.len() ==> (#[trigger] self.parents[i] matches Some(p) ==> self.has(p))
        &&& forall|i: int| 0 <= i < self.len() ==> (#[trigger] self.children[i]).len() <= i32::MAX
    }

    /// A graph of the root alone.
    pub open spec fn single(name: Seq<char>) -> GraphView {
        GraphView {
            kinds: seq![NodeKind::Flow(FlowKind::Root)],
            names: seq![name],
            positions: seq![Seq::empty()],
            children: seq![Seq::empty()],
            parents: seq![None],
            root: NodeId(0),
        }
    }

    /// The graph with one more node, which has no parent and no children yet.
    pub open spec fn with_node(self, kind: NodeKind, name: Seq<char>, position: Seq<Seq<char>>) -> GraphView {
        GraphView {
            kinds: self.kinds.push(kind),
            names: self.names.push(name),
            positions: self.positions.push(position),
            children: self.children.push(Seq::empty()),
            parents: self.parents.push(None),
            root: self.root,
        }
    }

    /// The graph with `child` appended to the children of `parent`, and `parent` recorded
    /// as the parent of `child`.
    pub open spec fn with_child(self, parent: NodeId, child: NodeId) -> GraphView {
        GraphView {
            children: self.children.update(
                parent.0 as int,
                self.children[parent.0 as int].push(child),
            ),
            parents: self.parents.update(child.0 as int, Some(parent)),
            ..self
        }
    }
}

/// An arena of nodes with parent and children edges. It is built once, by appending, and
/// then only read.
#[derive(Debug)]
pub struct NodeGraph {
    kinds: Vec<NodeKind>,
    names: Vec<String>,
    positions: Vec<NodePosition>,
    children: Vec<Vec<NodeId>>,
    parents: Vec<Option<NodeId>>,
    root: NodeId,
}

impl View for NodeGraph {
    type V = GraphView;

    closed spec fn view(&self) -> GraphView {
        GraphView {
            kinds: self.kinds@,
            names: Seq::new(self.names@.len(), |i: int| self.names@[i]@),
            positions: Seq::new(self.positions@.len(), |i: int| self.positions@[i]@),
            children: Seq::new(self.children@.len(), |i: int| self.children@[i]@),
            parents: self.parents@,
            root: self.root,
        }
    }
}

impl Clone for NodeGraph {
    fn clone(&self) -> (r: Self)
        ensures
            r@ == self@,
    {
        let mut children: Vec<Vec<NodeId>> = Vec::new();
        let mut i: usize = 0;
        while i < self.children.len()
            invariant
                i <= self.children.len(),
                children@.len() == i,
                forall|j: int| 0 <= j < i ==> (#[trigger] children@[j])@ == self.children@[j]@,
            decreases self.children.len() - i,
        {
            let row = self.children[i].clone();
            assert(row@ =~= self.children@[i as int]@);
            children.push(row);
            i = i + 1;
        }
        let r = NodeGraph {
            kinds: self.kinds.clone(),
            names: self.names.clone(),
            positions: self.positions.clone(),
            children,
            parents: self.parents.clone(),
            root: self.root,
        };
        proof {
            let v = r@;
            let w = self@;
            assert(v.kinds =~= w.kinds);
            assert(v.names =~= w.names);
            assert(v.positions =~= w.positions);
            assert(v.children =~= w.children);
            assert(v.parents =~= w.parents);
        }
        r
    }
}

impl NodeGraph {
    /// The graph's invariant: see [`GraphView::wf`].
    pub open spec fn wf(&self) -> bool {
        self@.wf()
    }

    /// A graph that holds the root alone, a flow node of kind `Root` at the root position.
    pub fn new_root(name: &str) -> (g: Self)
        ensures
            g@ == GraphView::single(name@),
            g.wf(),
            g@.is_tree(),
    {
        proof {
            GraphView::lemma_single_is_tree(name@);
        }
        let mut kinds = Vec::new();
        kinds.push(NodeKind::Flow(FlowKind::Root));
        let mut names = Vec::new();
        names.push(name.to_owned());
        let mut positions = Vec::new();
        positions.push(NodePosition::root());
        let mut children: Vec<Vec<NodeId>> = Vec::new();
        children.push(Vec::new());
        let mut parents = Vec::new();
        parents.push(None);
        let g = NodeGraph { kinds, names, positions, children, parents, root: NodeId(0) };
        proof {
            let v = g@;
            let w = GraphView::single(name@);
            assert(v.kinds =~= w.kinds);
            assert(v.names =~= w.names);
            assert(v.positions =~= w.positions);
            assert(v.children =~= w.children);
            assert(v.parents =~= w.parents);
        }
        g
    }

    /// Appends a node without edges and returns its identifier.
    pub fn add_node(&mut self, kind: NodeKind, name: &str, position: NodePosition) -> (id: NodeId)
        requires
            old(self).wf(),
            old(self)@.len() <= u32::MAX,
        ensures
            id.0 == old(self)@.len(),
            final(self)@ == old(self)@.with_node(kind, name@, position@),
            final(self).wf(),
    {
        let id = NodeId(self.kinds.len() as u32);
        self.kinds.push(kind);
        self.names.push(name.to_owned());
        self.positions.push(position);
        self.children.push(Vec::new());
        self.parents.push(None);
        proof {
            let v = final(self)@;
            let w = old(self)@.with_node(kind, name@, position@);
            assert(v.kinds =~= w.kinds);
            assert(v.names =~= w.names);
            assert(v.positions =~= w.positions);
            assert(v.children =~= w.children);
            assert(v.parents =~= w.parents);
        }
        id
    }

    /// Records `child` as the next child of `parent`.
    pub fn add_child(&mut self, parent: NodeId, child: NodeId)
        requires
            old(self).wf(),
            old(self)@.has(parent),
            old(self)@.has(child),
            old(self)@.fanout(parent.0 as int) < i32::MAX,
        ensures
            final(self)@ == old(self)@.with_child(parent, child),
            final(self).wf(),
    {
        self.children[parent.index()].push(child);
        self.parents[child.index()] = Some(parent);
        proof {
            let v = final(self)@;
            let w = old(self)@.with_child(parent, child);
            assert(v.kinds =~= w.kinds);
            assert(v.names =~= w.names);
            assert(v.positions =~= w.positions);
            assert(v.children =~= w.children);
            assert(v.parents =~= w.parents);
        }
    }

    /// The root's identifier.
    pub fn root(&self) -> (id: NodeId)
        ensures
            id == self@.root,
    {
        self.root
    }

    /// The number of nodes.
    pub fn len(&self) -> (n: usize)
        requires
            self.wf(),
        ensures
            n == self@.len(),
    {
        self.kinds.len()
    }

    /// The kind of a node.
    pub fn kind(&self, id: NodeId) -> (k: &NodeKind)
        requires
            self.wf(),
            self@.has(id),
        ensures
            *k == self@.kinds[id.0 as int],
    {
        &self.kinds[id.index()]
    }

    /// The name of a node.
    pub fn name(&self, id: NodeId) -> (s: &str)
        requires
            self.wf(),
            self@.has(id),
        ensures
            s@ == self@.names[id.0 as int],
    {
        self.names[id.index()].as_str()
    }

    /// The position of a node.
    pub fn position(&self, id: NodeId) -> (p: &NodePosition)
        requires
            self.wf(),
            self@.has(id),
        ensures
            p@ == self@.positions[id.0 as int],
    {
        &self.positions[id.index()]
    }

    /// The children of a node, in their order.
    pub fn children(&self, id: NodeId) -> (c: &[NodeId])
        requires
            self.wf(),
            self@.has(id),
        ensures
            c@ == self@.children[id.0 as int],
    {
        self.children[id.index()].as_slice()
    }

    /// The parent of a node, or nothing for a node without one.
    pub fn parent(&self, id: NodeId) -> (p: Option<NodeId>)
        requires
            self.wf(),
            self@.has(id),
        ensures
            p == self@.parents[id.0 as int],
    {
        self.parents[id.index()]
    }
}

} // verus!
