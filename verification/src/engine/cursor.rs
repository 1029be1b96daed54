//! The walk without its payloads: where the processor stands and how far each node's
//! cursor has moved. A tick moves this part of the state in one way, whatever the time
//! and whatever the effects give.

use vstd::prelude::*;
use super::model::{finishing, record, tick_spec, tickable, EngineView};
use crate::nodes::graph::GraphView;
use crate::nodes::id::NodeId;
use crate::payload::Json;

verus! {

/// Where a walk stands: the node to process next, and for every node of the graph the
/// offset of its next child.
pub struct Cursor {
    pub current: Option<NodeId>,
    pub index: Seq<int>,
}

/// The cursor part of a processor's state.
pub open spec fn cursor_of(g: GraphView, v: EngineView) -> Cursor {
    Cursor {
        current: v.current,
        index: Seq::new(
            g.len(),
            |i: int| record(v.workflow.states, GraphView::node(i)).child_index,
        ),
    }
}

/// The child that the next step enters: the one that the cursor of the current node
/// names, where that node is a flow node and the cursor names one.
pub open spec fn enters(g: GraphView, c: Cursor) -> Option<NodeId> {
    match c.current {
        Some(id) => {
            let i = c.index[id.0 as int];
            if g.kinds[id.0 as int] is Flow && 0 <= i < g.children[id.0 as int].len() {
                Some(g.children[id.0 as int][i])
            } else {
                None
            }
        },
        None => None,
    }
}

/// The node that the next step finishes: the current node, unless the step enters one of
/// its children.
pub open spec fn finishes(g: GraphView, c: Cursor) -> Option<NodeId> {
    match c.current {
        Some(id) => if enters(g, c) is None {
            Some(id)
        } else {
            None
        },
        None => None,
    }
}

/// One step: into the next child, or, the current node being finished, up to its parent,
/// whose cursor moves on by one. From the root the step leads nowhere, and the walk is
/// over; after that nothing moves.
pub open spec fn step(g: GraphView, c: Cursor) -> Cursor {
    match c.current {
        None => c,
        Some(id) => match enters(g, c) {
            Some(child) => Cursor { current: Some(child), index: c.index },
            None => match g.parents[id.0 as int] {
                Some(p) => Cursor {
                    current: Some(p),
                    index: c.index.update(p.0 as int, c.index[p.0 as int] + 1),
                },
                None => Cursor { current: None, index: c.index },
            },
        },
    }
}

/// The cursor after `n` steps.
pub open spec fn steps(g: GraphView, c: Cursor, n: nat) -> Cursor
    decreases n,
{
    if n == 0 {
        c
    } else {
        step(g, steps(g, c, (n - 1) as nat))
    }
}

/// The nodes that the first `n` steps finish, in the order in which they are finished.
pub open spec fn finished(g: GraphView, c: Cursor, n: nat) -> Seq<NodeId>
    decreases n,
{
    if n == 0 {
        Seq::empty()
    } else {
        let before = finished(g, c, (n - 1) as nat);
        match finishes(g, steps(g, c, (n - 1) as nat)) {
            Some(x) => before.push(x),
            None => before,
        }
    }
}

/// The children that are left to visit, summed over the first `m` nodes.
pub open spec fn remaining(g: GraphView, index: Seq<int>, m: int) -> int
    decreases m,
{
    if m <= 0 {
        0
    } else {
        remaining(g, index, m - 1) + (g.children[m - 1].len() - index[m - 1])
    }
}

/// A bound on the steps that are left: it is positive while the walk goes on, and every
/// step takes at least one off it.
pub open spec fn fuel(g: GraphView, c: Cursor) -> int {
    match c.current {
        Some(x) => 2 * remaining(g, c.index, g.len() as int) + (g.len() - g.level(x.0 as int)),
        None => 0,
    }
}

/// The cursor of the node `k` steps above `x` names the node through which the way down
/// to `x` goes.
pub open spec fn points_down(g: GraphView, c: Cursor, x: int, k: nat) -> bool {
    let above = g.ancestor(x, k);
    &&& c.index[above] < g.children[above].len()
    &&& g.children[above][c.index[above]] == GraphView::node(g.ancestor(x, (k - 1) as nat))
}

/// The cursor fits the tree: no node's cursor is beyond its children, and the cursor of
/// every node above the current one names the child through which the walk went down.
pub open spec fn consistent(g: GraphView, c: Cursor) -> bool {
    &&& g.is_tree()
    &&& c.index.len() == g.len()
    &&& forall|y: int| 0 <= y < g.len() ==> 0 <= #[trigger] c.index[y] <= g.children[y].len()
    &&& c.current matches Some(x) ==> {
        &&& g.has(x)
        &&& forall|k: nat| 1 <= k <= g.level(x.0 as int) ==> #[trigger] points_down(g, c, x.0 as int, k)
    }
}

/// A tick moves the cursor part of the state by one step, and finishes the node that the
/// step finishes, whatever the time and the payload.
pub proof fn lemma_tick_moves_cursor(g: GraphView, v: EngineView, now: time::OffsetDateTime, payload: Json)
    requires
        g.wf(),
        v.current matches Some(id) ==> g.has(id),
    ensures
        cursor_of(g, tick_spec(g, v, now, payload).0) == step(g, cursor_of(g, v)),
        finishing(g, v) == finishes(g, cursor_of(g, v)),
{
    let c = cursor_of(g, v);
    let after = tick_spec(g, v, now, payload).0;
    let c2 = cursor_of(g, after);
    let s2 = step(g, c);
    assert forall|i: int| 0 <= i < g.len() implies (#[trigger] GraphView::node(i)).0 == i by {}
    match v.current {
        None => {
            assert(c2.index =~= s2.index);
        },
        Some(id) => {
            assert(GraphView::node(id.0 as int) == id);
            assert(c2.index =~= s2.index);
        },
    }
}

/// Steps add up.
pub proof fn lemma_steps_add(g: GraphView, c: Cursor, a: nat, b: nat)
    ensures
        steps(g, c, a + b) == steps(g, steps(g, c, a), b),
        finished(g, c, a + b) == finished(g, c, a) + finished(g, steps(g, c, a), b),
    decreases b,
{
    if b == 0 {
        assert(finished(g, c, a) + Seq::<NodeId>::empty() =~= finished(g, c, a));
    } else {
        lemma_steps_add(g, c, a, (b - 1) as nat);
        assert((a + b - 1) as nat == a + (b - 1) as nat);
        let mid = steps(g, c, a);
        let before = finished(g, mid, (b - 1) as nat);
        match finishes(g, steps(g, mid, (b - 1) as nat)) {
            Some(x) => {
                assert(finished(g, c, a) + before.push(x) =~= (finished(g, c, a) + before).push(x));
            },
            None => {},
        }
    }
}

/// Once the walk is over, nothing moves and nothing is finished.
pub proof fn lemma_rest_after_end(g: GraphView, c: Cursor, n: nat)
    requires
        c.current is None,
    ensures
        steps(g, c, n) == c,
        finished(g, c, n) == Seq::<NodeId>::empty(),
    decreases n,
{
    if n > 0 {
        lemma_rest_after_end(g, c, (n - 1) as nat);
    }
}

/// Moving one node's cursor on by one takes one off what remains.
pub proof fn lemma_remaining_after_move(g: GraphView, index: Seq<int>, p: int, m: int)
    requires
        0 <= p < index.len(),
        0 <= m <= index.len(),
    ensures
        remaining(g, index.update(p, index[p] + 1), m) == remaining(g, index, m) - if p < m {
            1int
        } else {
            0int
        },
    decreases m,
{
    if m > 0 {
        lemma_remaining_after_move(g, index, p, m - 1);
    }
}

/// What remains is never negative where no cursor is beyond its node's children.
pub proof fn lemma_remaining_bounds(g: GraphView, index: Seq<int>, m: int)
    requires
        0 <= m <= index.len(),
        forall|y: int| 0 <= y < m ==> #[trigger] index[y] <= g.children[y].len(),
    ensures
        remaining(g, index, m) >= 0,
    decreases m,
{
    if m > 0 {
        lemma_remaining_bounds(g, index, m - 1);
    }
}

/// A step keeps the cursor fitting the tree, and while the walk goes on it takes at least
/// one off the fuel, which is never negative.
pub proof fn lemma_step_keeps_consistent(g: GraphView, c: Cursor)
    requires
        consistent(g, c),
    ensures
        consistent(g, step(g, c)),
        fuel(g, c) >= 0,
        fuel(g, step(g, c)) >= 0,
        c.current is Some ==> fuel(g, step(g, c)) < fuel(g, c),
        forall|y: int| 0 <= y < g.len() ==> c.index[y] <= #[trigger] step(g, c).index[y],
{
    let n = g.len() as int;
    let s = step(g, c);
    g.lemma_levels();
    lemma_remaining_bounds(g, c.index, n);
    match c.current {
        None => {
            assert(s == c);
        },
        Some(id) => {
            let x = id.0 as int;
            let level = g.levels();
            assert(level[x] < g.len());
            match enters(g, c) {
                Some(child) => {
                    let i = c.index[x];
                    g.lemma_child(x, i);
                    let d = child.0 as int;
                    assert(GraphView::node(d) == child);
                    assert(s.index == c.index);
                    assert forall|k: nat| 1 <= k <= g.level(d) implies #[trigger] points_down(g, s, d, k) by {
                        g.lemma_ancestor_via_parent(d, k);
                        if k == 1 {
                            assert(g.ancestor(x, 0) == x);
                            assert(g.ancestor(d, 0) == d);
                        } else {
                            g.lemma_ancestor_via_parent(d, (k - 1) as nat);
                            assert(points_down(g, c, x, (k - 1) as nat));
                        }
                    }
                    lemma_remaining_bounds(g, s.index, n);
                },
                None => {
                    match g.parents[x] {
                        Some(pid) => {
                            let p = pid.0 as int;
                            assert(g.has(pid));
                            assert(level[x] == level[p] + 1);
                            assert(g.ancestor(x, 1) == g.up(g.ancestor(x, 0)));
                            assert(g.ancestor(x, 0) == x);
                            assert(g.ancestor(x, 1) == p);
                            assert(points_down(g, c, x, 1));
                            assert(c.index[p] < g.children[p].len());
                            lemma_remaining_after_move(g, c.index, p, n);
                            assert forall|k: nat| 1 <= k <= g.level(p) implies #[trigger] points_down(
                                g,
                                s,
                                p,
                                k,
                            ) by {
                                g.lemma_ancestor_via_parent(x, k + 1);
                                g.lemma_ancestor_via_parent(x, k);
                                g.lemma_ancestor(p, k);
                                assert(g.ancestor(p, k) != p);
                                assert(g.ancestor(p, 0) == p);
                                assert(points_down(g, c, x, k + 1));
                            }
                            lemma_remaining_bounds(g, s.index, n);
                            assert(level[p] < g.len());
                        },
                        None => {},
                    }
                },
            }
        },
    }
}

/// A state whose cursor fits the tree can be ticked.
pub proof fn lemma_consistent_is_tickable(g: GraphView, v: EngineView)
    requires
        consistent(g, cursor_of(g, v)),
    ensures
        tickable(g, v),
{
    let c = cursor_of(g, v);
    g.lemma_levels();
    match v.current {
        None => {},
        Some(id) => {
            let x = id.0 as int;
            match g.parents[x] {
                Some(pid) => {
                    let p = pid.0 as int;
                    assert(g.has(pid));
                    let level = g.levels();
                    assert(level[x] == level[p] + 1);
                    assert(g.ancestor(x, 1) == g.up(g.ancestor(x, 0)));
                    assert(g.ancestor(x, 0) == x);
                    assert(points_down(g, c, x, 1));
                    assert(GraphView::node(p) == pid);
                    assert(c.index[p] == record(v.workflow.states, pid).child_index);
                },
                None => {},
            }
        },
    }
}

} // verus!
