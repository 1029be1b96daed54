//! Graphs that are trees: levels, ancestors, subtrees and the order in which a walk
//! finishes the nodes.

use vstd::prelude::*;
use super::graph::GraphView;
use super::id::NodeId;

verus! {

impl GraphView {
    /// The node with the number `i`.
    pub open spec fn node(i: int) -> NodeId {
        NodeId(i as u32)
    }

    /// Children and parents agree: a node's children name it as their parent, a node
    /// with a parent stands among that parent's children, and no node stands twice among
    /// the children of one node.
    pub open spec fn linked(self) -> bool {
        &&& forall|p: int, k: int|
            0 <= p < self.len() && 0 <= k < self.children[p].len() ==> self.parents[(
            #[trigger] self.children[p][k]).0 as int] == Some(Self::node(p))
        &&& forall|c: int|
            0 <= c < self.len() ==> (#[trigger] self.parents[c] matches Some(p) ==> exists|k: int|
                0 <= k < self.children[p.0 as int].len() && #[trigger] self.children[p.0 as int][k]
                    == Self::node(c))
        &&& forall|p: int, j: int, k: int|
            0 <= p < self.len() && 0 <= j < k < self.children[p].len()
                ==> #[trigger] self.children[p][j] != #[trigger] self.children[p][k]
    }

    /// `level` gives every node its distance from the root: 0 for the root, which is the
    /// only node without a parent, and one more than its parent's for every other node.
    pub open spec fn levelled(self, level: Seq<nat>) -> bool {
        &&& level.len() == self.len()
        &&& level[self.root.0 as int] == 0
        &&& forall|c: int|
            0 <= c < self.len() ==> {
                &&& (#[trigger] level[c]) < self.len()
                &&& match self.parents[c] {
                    Some(p) => level[c] == level[p.0 as int] + 1,
                    None => c == self.root.0,
                }
            }
    }

    /// The graph is a tree: well formed, with children and parents in agreement, the root
    /// without a parent, and every node at a finite distance from the root.
    pub open spec fn is_tree(self) -> bool {
        &&& self.wf()
        &&& self.linked()
        &&& self.parents[self.root.0 as int] is None
        &&& exists|level: Seq<nat>| self.levelled(level)
    }

    /// The levels of a tree's nodes.
    pub open spec fn levels(self) -> Seq<nat> {
        choose|level: Seq<nat>| self.levelled(level)
    }

    /// The distance of node `x` from the root.
    pub open spec fn level(self, x: int) -> nat {
        self.levels()[x]
    }

    /// The parent of node `x`, or `x` itself where it has none.
    pub open spec fn up(self, x: int) -> int {
        match self.parents[x] {
            Some(p) => p.0 as int,
            None => x,
        }
    }

    /// The node `k` steps above `x`.
    pub open spec fn ancestor(self, x: int, k: nat) -> int
        decreases k,
    {
        if k == 0 {
            x
        } else {
            self.up(self.ancestor(x, (k - 1) as nat))
        }
    }

    /// True when `x` is `c` or lies below it.
    pub open spec fn in_subtree(self, c: int, x: int) -> bool {
        &&& 0 <= x < self.len()
        &&& self.level(x) >= self.level(c)
        &&& self.ancestor(x, (self.level(x) - self.level(c)) as nat) == c
    }

    /// True when `x` lies below the child of `c` at the offset `i` or a later one.
    pub open spec fn below_from(self, c: int, i: int, x: int) -> bool {
        exists|j: int|
            i <= j < self.children[c].len() && #[trigger] self.in_subtree(self.children[c][j].0 as int, x)
    }

    /// Effect nodes have no children.
    pub open spec fn effects_are_leaves(self) -> bool {
        forall|i: int|
            0 <= i < self.len() && (#[trigger] self.kinds[i]) is Effect ==> self.children[i].len() == 0
    }

    /// The nodes of the subtree of `c` from its child at offset `i` on, in the order in
    /// which a walk finishes them: each child's subtree in turn, then `c`.
    pub open spec fn post_order_from(self, c: int, i: int) -> Seq<NodeId>
        decreases self.len() - self.level(c), self.children[c].len() - i,
        when self.is_tree() && 0 <= c < self.len() && 0 <= i
    {
        if i >= self.children[c].len() {
            seq![Self::node(c)]
        } else {
            self.post_order_from(self.children[c][i].0 as int, 0) + self.post_order_from(c, i + 1)
        }
    }

    /// The nodes of the subtree of `c` in the order in which a walk finishes them.
    pub open spec fn post_order(self, c: int) -> Seq<NodeId> {
        self.post_order_from(c, 0)
    }

    /// The number of ticks that a walk spends on the subtree of `c` from its child at
    /// offset `i` on: one to enter each child, the ticks of the child's subtree, and one
    /// to finish `c`.
    pub open spec fn walk_len_from(self, c: int, i: int) -> nat
        decreases self.len() - self.level(c), self.children[c].len() - i,
        when self.is_tree() && 0 <= c < self.len() && 0 <= i
    {
        if i >= self.children[c].len() {
            1
        } else {
            1 + self.walk_len_from(self.children[c][i].0 as int, 0) + self.walk_len_from(c, i + 1)
        }
    }

    /// The node at the end of the chain of last children that begins at `y`: the node
    /// whose output rolls up to `y`.
    pub open spec fn source_of(self, y: int) -> int
        decreases self.len() - self.level(y),
        when self.is_tree() && 0 <= y < self.len()
    {
        if self.kinds[y] is Flow && self.children[y].len() > 0 {
            self.source_of(self.children[y].last().0 as int)
        } else {
            y
        }
    }

    /// The levels of a tree are levels.
    pub proof fn lemma_levels(self)
        requires
            self.is_tree(),
        ensures
            self.levelled(self.levels()),
    {
    }

    /// A child lies one level below its parent, and is a node of the graph.
    pub proof fn lemma_child(self, c: int, k: int)
        requires
            self.is_tree(),
            0 <= c < self.len(),
            0 <= k < self.children[c].len(),
        ensures
            0 <= self.children[c][k].0 < self.len(),
            self.parents[self.children[c][k].0 as int] == Some(Self::node(c)),
            self.up(self.children[c][k].0 as int) == c,
            self.level(self.children[c][k].0 as int) == self.level(c) + 1,
            self.level(c) + 1 < self.len(),
    {
        let d = self.children[c][k];
        assert(self.has(d));
        assert(self.parents[d.0 as int] == Some(Self::node(c)));
        let level = self.levels();
        assert(level[d.0 as int] < self.len());
    }

    /// The node `k` steps above `x` is a node of the graph, `k` levels above `x`.
    pub proof fn lemma_ancestor(self, x: int, k: nat)
        requires
            self.is_tree(),
            0 <= x < self.len(),
            k <= self.level(x),
        ensures
            0 <= self.ancestor(x, k) < self.len(),
            self.level(self.ancestor(x, k)) == self.level(x) - k,
        decreases k,
    {
        if k > 0 {
            self.lemma_ancestor(x, (k - 1) as nat);
            let y = self.ancestor(x, (k - 1) as nat);
            let level = self.levels();
            assert(level[y] >= 1);
            assert(self.parents[y] is Some);
            assert(level[self.root.0 as int] == 0);
        }
    }

    /// Above a node with a parent, the steps are counted from the parent, one fewer.
    pub proof fn lemma_ancestor_via_parent(self, x: int, k: nat)
        requires
            self.is_tree(),
            0 <= x < self.len(),
            self.parents[x] is Some,
            1 <= k,
        ensures
            self.ancestor(x, k) == self.ancestor(self.up(x), (k - 1) as nat),
        decreases k,
    {
        if k > 1 {
            self.lemma_ancestor_via_parent(x, (k - 1) as nat);
        } else {
            assert(self.ancestor(x, 0) == x);
            assert(self.ancestor(self.up(x), 0) == self.up(x));
        }
    }

    /// Every node is in its own subtree.
    pub proof fn lemma_subtree_holds_its_top(self, c: int)
        requires
            self.is_tree(),
            0 <= c < self.len(),
        ensures
            self.in_subtree(c, c),
    {
    }

    /// What lies below a child lies below its parent, and is not the parent.
    pub proof fn lemma_subtree_of_child(self, c: int, k: int, x: int)
        requires
            self.is_tree(),
            0 <= c < self.len(),
            0 <= k < self.children[c].len(),
            self.in_subtree(self.children[c][k].0 as int, x),
        ensures
            self.in_subtree(c, x),
            x != c,
    {
        self.lemma_child(c, k);
        let d = self.children[c][k].0 as int;
        let m = (self.level(x) - self.level(d)) as nat;
        assert(self.ancestor(x, m + 1) == self.up(self.ancestor(x, m)));
    }

    /// The subtrees of two different children of one node share no node.
    pub proof fn lemma_subtrees_apart(self, c: int, j: int, k: int, x: int)
        requires
            self.is_tree(),
            0 <= c < self.len(),
            0 <= j < self.children[c].len(),
            0 <= k < self.children[c].len(),
            j != k,
            self.in_subtree(self.children[c][j].0 as int, x),
        ensures
            !self.in_subtree(self.children[c][k].0 as int, x),
    {
        self.lemma_child(c, j);
        self.lemma_child(c, k);
        if j < k {
            assert(self.children[c][j] != self.children[c][k]);
        } else {
            assert(self.children[c][k] != self.children[c][j]);
        }
    }

    /// A node below `c` that is not `c` lies below one of the children of `c`.
    pub proof fn lemma_subtree_splits(self, c: int, x: int) -> (k: int)
        requires
            self.is_tree(),
            0 <= c < self.len(),
            self.in_subtree(c, x),
            x != c,
        ensures
            0 <= k < self.children[c].len(),
            self.in_subtree(self.children[c][k].0 as int, x),
    {
        let m = (self.level(x) - self.level(c)) as nat;
        assert(m >= 1) by {
            if m == 0 {
                assert(self.ancestor(x, 0) == x);
            }
        }
        let d = self.ancestor(x, (m - 1) as nat);
        self.lemma_ancestor(x, (m - 1) as nat);
        assert(self.ancestor(x, m) == self.up(d));
        let level = self.levels();
        assert(level[d] >= 1);
        assert(self.parents[d] is Some);
        assert(self.up(d) == c);
        let k = choose|k: int|
            0 <= k < self.children[c].len() && #[trigger] self.children[c][k] == Self::node(d);
        assert(self.children[c][k].0 as int == d);
        k
    }

    /// The members of a post order: the top and what lies below its children from the
    /// offset on, each once.
    pub proof fn lemma_post_order_members(self, x: int, i: int)
        requires
            self.is_tree(),
            0 <= x < self.len(),
            0 <= i <= self.children[x].len(),
        ensures
            self.post_order_from(x, i).no_duplicates(),
            forall|id: NodeId|
                self.post_order_from(x, i).contains(id) <==> (self.has(id) && (id.0 == x
                    || self.below_from(x, i, id.0 as int))),
        decreases self.len() - self.level(x), self.children[x].len() - i,
    {
        let all = self.post_order_from(x, i);
        if i == self.children[x].len() {
            assert(all =~= seq![Self::node(x)]);
            assert forall|id: NodeId| all.contains(id) <==> (self.has(id) && (id.0 == x
                || self.below_from(x, i, id.0 as int))) by {
                if id.0 == x {
                    assert(all[0] == id);
                }
            }
        } else {
            let d = self.children[x][i].0 as int;
            self.lemma_child(x, i);
            self.lemma_levels();
            let first = self.post_order_from(d, 0);
            let rest = self.post_order_from(x, i + 1);
            self.lemma_post_order_members(d, 0);
            self.lemma_post_order_members(x, i + 1);
            assert(all == first + rest);
            assert forall|id: NodeId| all.contains(id) <==> (self.has(id) && (id.0 == x
                || self.below_from(x, i, id.0 as int))) by {
                vstd::seq_lib::lemma_seq_concat_contains_all_elements(first, rest, id);
                self.lemma_below_splits(x, i, id.0 as int);
                self.lemma_subtree_is_top_or_below(d, id.0 as int);
                assert(first.contains(id) <==> (self.has(id) && (id.0 == d || self.below_from(
                    d,
                    0,
                    id.0 as int,
                ))));
                assert(rest.contains(id) <==> (self.has(id) && (id.0 == x || self.below_from(
                    x,
                    i + 1,
                    id.0 as int,
                ))));
                self.lemma_subtree_holds_its_top(d);
                if self.in_subtree(d, id.0 as int) {
                    self.lemma_subtree_of_child(x, i, id.0 as int);
                }
            }
            assert forall|a: int, b: int| 0 <= a < first.len() && 0 <= b < rest.len() implies first[a]
                != rest[b] by {
                if first[a] == rest[b] {
                    let id = first[a];
                    assert(first.contains(id));
                    assert(rest.contains(id));
                    self.lemma_below_splits(x, i, id.0 as int);
                self.lemma_subtree_is_top_or_below(d, id.0 as int);
                    assert(first.contains(id) <==> (self.has(id) && (id.0 == d || self.below_from(
                        d,
                        0,
                        id.0 as int,
                    ))));
                    assert(rest.contains(id) <==> (self.has(id) && (id.0 == x || self.below_from(
                        x,
                        i + 1,
                        id.0 as int,
                    ))));
                    assert(self.in_subtree(d, id.0 as int));
                    self.lemma_subtree_of_child(x, i, id.0 as int);
                    if self.below_from(x, i + 1, id.0 as int) {
                        let j = choose|j: int|
                            i + 1 <= j < self.children[x].len() && #[trigger] self.in_subtree(
                                self.children[x][j].0 as int,
                                id.0 as int,
                            );
                        self.lemma_subtrees_apart(x, j, i, id.0 as int);
                    }
                }
            }
            vstd::seq_lib::lemma_no_dup_in_concat(first, rest);
        }
    }

    /// What lies below the children of `x` from offset `i` on lies below the child at `i`
    /// or below the children from `i + 1` on.
    pub proof fn lemma_below_splits(self, x: int, i: int, y: int)
        requires
            0 <= i < self.children[x].len(),
        ensures
            self.below_from(x, i, y) <==> (self.in_subtree(self.children[x][i].0 as int, y)
                || self.below_from(x, i + 1, y)),
    {
        if self.below_from(x, i, y) {
            let j = choose|j: int|
                i <= j < self.children[x].len() && #[trigger] self.in_subtree(
                    self.children[x][j].0 as int,
                    y,
                );
            if j != i {
                assert(i + 1 <= j && self.in_subtree(self.children[x][j].0 as int, y));
            }
        }
        if self.below_from(x, i + 1, y) {
            let j = choose|j: int|
                i + 1 <= j < self.children[x].len() && #[trigger] self.in_subtree(
                    self.children[x][j].0 as int,
                    y,
                );
            assert(i <= j && self.in_subtree(self.children[x][j].0 as int, y));
        }
        if self.in_subtree(self.children[x][i].0 as int, y) {
            assert(i <= i && self.in_subtree(self.children[x][i].0 as int, y));
        }
    }

    /// What is in the subtree of `d` is `d` or lies below one of its children.
    pub proof fn lemma_subtree_is_top_or_below(self, d: int, y: int)
        requires
            self.is_tree(),
            0 <= d < self.len(),
        ensures
            self.in_subtree(d, y) <==> (y == d || self.below_from(d, 0, y)),
    {
        if self.in_subtree(d, y) && y != d {
            let k = self.lemma_subtree_splits(d, y);
            assert(0 <= k && self.in_subtree(self.children[d][k].0 as int, y));
        }
        if self.below_from(d, 0, y) {
            let j = choose|j: int|
                0 <= j < self.children[d].len() && #[trigger] self.in_subtree(
                    self.children[d][j].0 as int,
                    y,
                );
            self.lemma_subtree_of_child(d, j, y);
        }
        self.lemma_subtree_holds_its_top(d);
    }

    /// The graph of a root alone is a tree.
    pub proof fn lemma_single_is_tree(name: Seq<char>)
        ensures
            Self::single(name).is_tree(),
            Self::single(name).effects_are_leaves(),
    {
        let g = Self::single(name);
        let level: Seq<nat> = seq![0nat];
        assert(g.levelled(level));
    }

    /// A tree stays a tree when a node is appended to it and made the last child of one
    /// of its nodes.
    pub proof fn lemma_leaf_keeps_tree(
        self,
        kind: super::kind::NodeKind,
        name: Seq<char>,
        position: Seq<Seq<char>>,
        parent: NodeId,
    )
        requires
            self.is_tree(),
            self.has(parent),
            self.len() <= u32::MAX,
            self.children[parent.0 as int].len() < i32::MAX,
        ensures
            self.with_node(kind, name, position).with_child(parent, Self::node(self.len() as int)).is_tree(),
            self.effects_are_leaves() && self.kinds[parent.0 as int] is Flow ==> self.with_node(
                kind,
                name,
                position,
            ).with_child(parent, Self::node(self.len() as int)).effects_are_leaves(),
    {
        let n = self.len() as int;
        let leaf = Self::node(n);
        let grown = self.with_node(kind, name, position);
        let g = grown.with_child(parent, leaf);
        let p = parent.0 as int;
        self.lemma_levels();
        let old_level = self.levels();
        let level = old_level.push(old_level[p] + 1);
        assert(leaf.0 == n);
        assert(g.wf()) by {
            assert forall|i: int, k: int| 0 <= i < g.len() && 0 <= k < g.children[i].len() implies g.has(
                #[trigger] g.children[i][k],
            ) by {
                if i == p && k == self.children[p].len() {
                } else if i < n {
                    assert(self.has(self.children[i][k]));
                }
            }
            assert forall|i: int| 0 <= i < g.len() implies (#[trigger] g.parents[i] matches Some(q)
                ==> g.has(q)) by {
                if i < n {
                    assert(self.parents[i] matches Some(q) ==> self.has(q));
                }
            }
            assert forall|i: int| 0 <= i < g.len() implies (#[trigger] g.children[i]).len()
                <= i32::MAX by {
                if i < n {
                    assert(self.children[i].len() <= i32::MAX);
                }
            }
        }
        assert(g.levelled(level)) by {
            assert forall|c: int| 0 <= c < g.len() implies {
                &&& (#[trigger] level[c]) < g.len()
                &&& match g.parents[c] {
                    Some(q) => level[c] == level[q.0 as int] + 1,
                    None => c == g.root.0,
                }
            } by {
                if c < n {
                    assert(old_level[c] < self.len());
                    assert(self.parents[c] matches Some(q) ==> self.has(q));
                } else {
                    assert(old_level[p] < self.len());
                }
            }
        }
        assert(g.linked()) by {
            assert forall|q: int, k: int| 0 <= q < g.len() && 0 <= k < g.children[q].len() implies g.parents[(
            #[trigger] g.children[q][k]).0 as int] == Some(Self::node(q)) by {
                if q == p && k == self.children[p].len() {
                    assert(Self::node(p) == parent);
                } else if q < n {
                    assert(self.has(self.children[q][k]));
                    assert(self.parents[self.children[q][k].0 as int] == Some(Self::node(q)));
                }
            }
            assert forall|c: int| 0 <= c < g.len() implies (#[trigger] g.parents[c] matches Some(q)
                ==> exists|k: int|
                0 <= k < g.children[q.0 as int].len() && #[trigger] g.children[q.0 as int][k]
                    == Self::node(c)) by {
                if c < n {
                    if self.parents[c] is Some {
                        let q = self.parents[c]->0;
                        assert(self.has(q));
                        let k = choose|k: int|
                            0 <= k < self.children[q.0 as int].len()
                                && #[trigger] self.children[q.0 as int][k] == Self::node(c);
                        assert(g.children[q.0 as int][k] == Self::node(c));
                    }
                } else {
                    let k = self.children[p].len() as int;
                    assert(g.children[p][k] == Self::node(c));
                }
            }
            assert forall|q: int, j: int, k: int|
                0 <= q < g.len() && 0 <= j < k < g.children[q].len() implies #[trigger] g.children[q][j]
                != #[trigger] g.children[q][k] by {
                if q == p && k == self.children[p].len() {
                    assert(self.has(self.children[p][j]));
                } else if q < n {
                    assert(self.children[q][j] != self.children[q][k]);
                }
            }
        }
        if self.effects_are_leaves() && self.kinds[p] is Flow {
            assert forall|i: int| 0 <= i < g.len() && (#[trigger] g.kinds[i]) is Effect implies g.children[i].len()
                == 0 by {
                if i < n {
                    assert(self.kinds[i] is Effect);
                }
            }
        }
    }

    /// Every node of a tree lies below the root.
    pub proof fn lemma_all_below_root(self, x: int)
        requires
            self.is_tree(),
            0 <= x < self.len(),
        ensures
            self.in_subtree(self.root.0 as int, x),
    {
        let k = self.level(x);
        self.lemma_ancestor(x, k);
        let top = self.ancestor(x, k);
        let level = self.levels();
        assert(level[top] == 0);
        assert(self.parents[top] is None);
    }
}

} // verus!
