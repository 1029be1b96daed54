//! What holds of every walk.

use vstd::prelude::*;
use super::cursor::{
    consistent, cursor_of, enters, finished, finishes, lemma_rest_after_end, lemma_steps_add,
    lemma_step_keeps_consistent, lemma_tick_moves_cursor, points_down, step, steps, Cursor,
};
use super::model::{awaits_effect, finishing, record, tick_events, tick_spec, EngineView, Status};
use super::observer::{completions, LifecycleEvent};
use crate::nodes::graph::GraphView;
use crate::nodes::id::NodeId;
use crate::payload::Json;

verus! {

/// No cursor has moved below the children of `x` from the offset `i` on.
pub open spec fn untouched_from(g: GraphView, c: Cursor, x: int, i: int) -> bool {
    forall|y: int| #[trigger] g.below_from(x, i, y) ==> c.index[y] == 0
}

/// `c1` is what a walk leaves of `c0` once it has finished `x`, having begun at the child
/// of `x` at offset `i`: it stands at the parent of `x`, whose cursor has moved on by one;
/// the cursors of `x` and of what it went through are at their ends; no other has moved.
pub open spec fn walked(g: GraphView, c0: Cursor, c1: Cursor, x: int, i: int) -> bool {
    &&& c1.current == g.parents[x]
    &&& c1.index.len() == c0.index.len()
    &&& forall|y: int|
        0 <= y < g.len() ==> #[trigger] c1.index[y] == (if g.below_from(x, i, y) || y == x {
            g.children[y].len() as int
        } else if g.parents[x] == Some(GraphView::node(y)) {
            c0.index[y] + 1
        } else {
            c0.index[y]
        })
}

/// What lies below the children of `x` is neither `x` nor its parent, and lies below no
/// earlier child.
pub proof fn lemma_below_is_apart(g: GraphView, x: int, i: int, y: int)
    requires
        g.is_tree(),
        0 <= x < g.len(),
        0 <= i,
        g.below_from(x, i, y),
    ensures
        0 <= y < g.len(),
        y != x,
        g.parents[x] != Some(GraphView::node(y)),
        forall|j: int| 0 <= j < i ==> !g.in_subtree(#[trigger] g.children[x][j].0 as int, y),
{
    let j = choose|j: int|
        i <= j < g.children[x].len() && #[trigger] g.in_subtree(g.children[x][j].0 as int, y);
    g.lemma_subtree_of_child(x, j, y);
    g.lemma_child(x, j);
    g.lemma_levels();
    let level = g.levels();
    assert(level[x] < g.len());
    if g.parents[x] == Some(GraphView::node(y)) {
        assert(level[x] == level[y] + 1);
    }
    assert forall|k: int| 0 <= k < i implies !g.in_subtree(#[trigger] g.children[x][k].0 as int, y) by {
        g.lemma_subtrees_apart(x, j, k, y);
    }
}

/// The walk of a subtree. A cursor that stands at `x`, with the cursor of `x` at the
/// offset `i` and nothing moved below the children from `i` on, goes through those
/// children in their order and then finishes `x`: it takes `walk_len_from(x, i)` steps,
/// never comes to an end before the last of them, and finishes the nodes in post order.
#[verifier::rlimit(40)]
pub proof fn lemma_walk(g: GraphView, c: Cursor, x: int, i: int)
    requires
        g.is_tree(),
        g.effects_are_leaves(),
        c.index.len() == g.len(),
        0 <= x < g.len(),
        c.current == Some(GraphView::node(x)),
        0 <= i <= g.children[x].len(),
        c.index[x] == i,
        untouched_from(g, c, x, i),
    ensures
        walked(g, c, steps(g, c, g.walk_len_from(x, i)), x, i),
        finished(g, c, g.walk_len_from(x, i)) == g.post_order_from(x, i),
        forall|m: nat| m < g.walk_len_from(x, i) ==> (#[trigger] steps(g, c, m)).current is Some,
    decreases g.len() - g.level(x), g.children[x].len() - i,
{
    let t = g.walk_len_from(x, i);
    g.lemma_levels();
    let level = g.levels();
    assert(level[x] < g.len());
    assert(GraphView::node(x).0 == x);
    assert(steps(g, c, 0) == c);
    assert(steps(g, c, 1) == step(g, steps(g, c, 0)));
    assert(finished(g, c, 0) =~= Seq::<NodeId>::empty());
    assert(finished(g, c, 1) == match finishes(g, c) {
        Some(n) => finished(g, c, 0).push(n),
        None => finished(g, c, 0),
    });
    if i == g.children[x].len() {
        assert(t == 1);
        assert(enters(g, c) is None);
        let c1 = step(g, c);
        assert(finished(g, c, 1) =~= seq![GraphView::node(x)]);
        assert forall|y: int| 0 <= y < g.len() implies #[trigger] c1.index[y] == (if g.below_from(
            x,
            i,
            y,
        ) || y == x {
            g.children[y].len() as int
        } else if g.parents[x] == Some(GraphView::node(y)) {
            c.index[y] + 1
        } else {
            c.index[y]
        }) by {
            assert(GraphView::node(y).0 == y);
            match g.parents[x] {
                Some(pid) => {
                    assert(g.has(pid));
                    assert(level[x] == level[pid.0 as int] + 1);
                },
                None => {},
            }
        }
        assert forall|m: nat| m < t implies (#[trigger] steps(g, c, m)).current is Some by {
            assert(m == 0);
        }
    } else {
        let d = g.children[x][i].0 as int;
        g.lemma_child(x, i);
        assert(g.kinds[x] is Flow);
        assert(GraphView::node(d) == g.children[x][i]);
        assert(enters(g, c) == Some(g.children[x][i]));
        let c1 = step(g, c);
        assert(c1.current == Some(GraphView::node(d)));
        assert(c1.index == c.index);
        g.lemma_subtree_holds_its_top(d);
        assert(g.below_from(x, i, d)) by {
            assert(i <= i && g.in_subtree(g.children[x][i].0 as int, d));
        }
        assert(untouched_from(g, c1, d, 0)) by {
            assert forall|y: int| #[trigger] g.below_from(d, 0, y) implies c1.index[y] == 0 by {
                g.lemma_subtree_is_top_or_below(d, y);
                g.lemma_below_splits(x, i, y);
                assert(g.below_from(x, i, y));
            }
        }
        lemma_walk(g, c1, d, 0);
        let t1 = g.walk_len_from(d, 0);
        let c2 = steps(g, c1, t1);
        assert(c2.current == Some(GraphView::node(x)));
        assert(c2.index[x] == i + 1) by {
            g.lemma_subtree_is_top_or_below(d, x);
            assert(!g.in_subtree(d, x));
        }
        assert(untouched_from(g, c2, x, i + 1)) by {
            assert forall|y: int| #[trigger] g.below_from(x, i + 1, y) implies c2.index[y] == 0 by {
                lemma_below_is_apart(g, x, i + 1, y);
                g.lemma_below_splits(x, i, y);
                g.lemma_subtree_is_top_or_below(d, y);
                assert(!g.in_subtree(g.children[x][i].0 as int, y));
                assert(g.below_from(x, i, y));
                assert(GraphView::node(y).0 == y);
            }
        }
        lemma_walk(g, c2, x, i + 1);
        let t2 = g.walk_len_from(x, i + 1);
        let c3 = steps(g, c2, t2);
        assert(t == 1 + t1 + t2);
        lemma_steps_add(g, c, 1, t1);
        lemma_steps_add(g, c, 1 + t1, t2);
        assert(steps(g, c, 1 + t1) == c2);
        assert(steps(g, c, t) == c3);
        assert(finished(g, c, 1) =~= Seq::<NodeId>::empty());
        assert(finished(g, c, t) =~= g.post_order_from(d, 0) + g.post_order_from(x, i + 1));
        assert forall|y: int| 0 <= y < g.len() implies #[trigger] c3.index[y] == (if g.below_from(
            x,
            i,
            y,
        ) || y == x {
            g.children[y].len() as int
        } else if g.parents[x] == Some(GraphView::node(y)) {
            c.index[y] + 1
        } else {
            c.index[y]
        }) by {
            g.lemma_below_splits(x, i, y);
            g.lemma_subtree_is_top_or_below(d, y);
            assert(GraphView::node(y).0 == y);
            if g.in_subtree(d, y) {
                assert(g.below_from(x, i, y));
                lemma_below_is_apart(g, x, i, y);
                if g.below_from(x, i + 1, y) {
                    lemma_below_is_apart(g, x, i + 1, y);
                }
            } else if g.below_from(x, i + 1, y) {
            } else if y == x {
            } else {
                assert(!g.below_from(x, i, y));
                assert(c2.index[y] == c1.index[y]);
            }
        }
        assert forall|m: nat| m < t implies (#[trigger] steps(g, c, m)).current is Some by {
            if m == 0 {
            } else if m < 1 + t1 {
                lemma_steps_add(g, c, 1, (m - 1) as nat);
                assert(steps(g, c1, (m - 1) as nat).current is Some);
            } else {
                lemma_steps_add(g, c, 1 + t1, (m - 1 - t1) as nat);
                assert(steps(g, c2, (m - 1 - t1) as nat).current is Some);
            }
        }
    }
}

/// Document order. In a tree whose effect nodes are leaves, a walk that begins at the
/// root with no cursor moved finishes every node exactly once, each node after all the
/// nodes below it and the children of a node in their order; then it is over, and not
/// before. Every cursor is then at its end.
pub proof fn lemma_walk_finishes_in_post_order(g: GraphView, c: Cursor)
    requires
        g.is_tree(),
        g.effects_are_leaves(),
        c.current == Some(g.root),
        c.index.len() == g.len(),
        forall|y: int| 0 <= y < g.len() ==> c.index[y] == 0,
    ensures
        steps(g, c, g.walk_len_from(g.root.0 as int, 0)).current is None,
        forall|m: nat|
            m < g.walk_len_from(g.root.0 as int, 0) ==> (#[trigger] steps(g, c, m)).current is Some,
        finished(g, c, g.walk_len_from(g.root.0 as int, 0)) == g.post_order(g.root.0 as int),
        forall|y: int|
            0 <= y < g.len() ==> steps(g, c, g.walk_len_from(g.root.0 as int, 0)).index[y]
                == g.children[y].len(),
        g.post_order(g.root.0 as int).no_duplicates(),
        forall|id: NodeId| g.has(id) <==> g.post_order(g.root.0 as int).contains(id),
{
    let r = g.root.0 as int;
    assert(GraphView::node(r) == g.root);
    assert(untouched_from(g, c, r, 0)) by {
        assert forall|y: int| #[trigger] g.below_from(r, 0, y) implies c.index[y] == 0 by {
            lemma_below_is_apart(g, r, 0, y);
        }
    }
    lemma_walk(g, c, r, 0);
    let end = steps(g, c, g.walk_len_from(r, 0));
    assert forall|y: int| 0 <= y < g.len() implies end.index[y] == g.children[y].len() by {
        g.lemma_all_below_root(y);
        g.lemma_subtree_is_top_or_below(r, y);
    }
    g.lemma_post_order_members(r, 0);
    assert forall|id: NodeId| g.has(id) <==> g.post_order(r).contains(id) by {
        if g.has(id) {
            g.lemma_all_below_root(id.0 as int);
            g.lemma_subtree_is_top_or_below(r, id.0 as int);
        }
    }
}

/// Once a walk that began as in [`lemma_walk_finishes_in_post_order`] is over, it has
/// finished the nodes in post order, however many steps were counted.
pub proof fn lemma_ended_walk_is_whole(g: GraphView, c: Cursor, k: nat)
    requires
        g.is_tree(),
        g.effects_are_leaves(),
        c.current == Some(g.root),
        c.index.len() == g.len(),
        forall|y: int| 0 <= y < g.len() ==> c.index[y] == 0,
        steps(g, c, k).current is None,
    ensures
        k >= g.walk_len_from(g.root.0 as int, 0),
        steps(g, c, k) == steps(g, c, g.walk_len_from(g.root.0 as int, 0)),
        finished(g, c, k) == g.post_order(g.root.0 as int),
{
    let t = g.walk_len_from(g.root.0 as int, 0);
    lemma_walk_finishes_in_post_order(g, c);
    if k < t {
        assert(steps(g, c, k).current is Some);
    }
    lemma_steps_add(g, c, t, (k - t) as nat);
    lemma_rest_after_end(g, steps(g, c, t), (k - t) as nat);
    assert(finished(g, c, t) + Seq::<NodeId>::empty() =~= finished(g, c, t));
}

/// No step moves a cursor back.
pub proof fn lemma_cursor_never_moves_back(g: GraphView, c: Cursor, y: int)
    requires
        g.wf(),
        c.index.len() == g.len(),
        c.current matches Some(x) ==> g.has(x),
        0 <= y < g.len(),
    ensures
        step(g, c).index.len() == c.index.len(),
        c.index[y] <= step(g, c).index[y],
{
}

/// The cursor of a flow node that is being finished stands at the number of its
/// children, and stays there.
pub proof fn lemma_finished_node_is_spent(g: GraphView, c: Cursor, x: int)
    requires
        consistent(g, c),
        0 <= x < g.len(),
        finishes(g, c) == Some(GraphView::node(x)),
        g.kinds[x] is Flow,
    ensures
        c.index[x] == g.children[x].len(),
        step(g, c).index[x] == g.children[x].len(),
{
    g.lemma_levels();
    let level = g.levels();
    assert(GraphView::node(x).0 == x);
    match g.parents[x] {
        Some(pid) => {
            assert(level[x] == level[pid.0 as int] + 1);
        },
        None => {},
    }
}

/// A tick after the end changes nothing. When a tick has reported the end of the walk,
/// the next tick reports the end again, with the same output, and leaves the workflow
/// state as it is.
pub proof fn lemma_tick_after_done_is_idempotent(
    g: GraphView,
    v: EngineView,
    now: time::OffsetDateTime,
    payload: Json,
    later: time::OffsetDateTime,
    other: Json,
)
    requires
        tick_spec(g, v, now, payload).1 is Done,
    ensures
        tick_spec(g, tick_spec(g, v, now, payload).0, later, other).1 == tick_spec(
            g,
            v,
            now,
            payload,
        ).1,
        tick_spec(g, tick_spec(g, v, now, payload).0, later, other).0.workflow == tick_spec(
            g,
            v,
            now,
            payload,
        ).0.workflow,
        tick_spec(g, tick_spec(g, v, now, payload).0, later, other).0.current is None,
        tick_spec(g, tick_spec(g, v, now, payload).0, later, other).0.status == Status::Completed,
{
}

/// The tick of an effect node records the payload as the node's output.
pub proof fn lemma_effect_output_is_recorded(g: GraphView, v: EngineView, now: time::OffsetDateTime, payload: Json)
    requires
        g.wf(),
        awaits_effect(g, v),
        g.has(v.current->0),
    ensures
        record(tick_spec(g, v, now, payload).0.workflow.states, v.current->0).raw_output == Some(payload),
{
}

/// The output of node `y` is the output of its last child, where that child has one.
pub open spec fn rolled_up_at(g: GraphView, v: EngineView, y: int) -> bool {
    let last = g.children[y].last();
    record(v.workflow.states, last).raw_output is Some ==> record(
        v.workflow.states,
        GraphView::node(y),
    ).raw_output == record(v.workflow.states, last).raw_output
}

/// True when node `y` is a flow node with children that the walk has finished: its
/// cursor is at its end and the walk does not stand at it.
pub open spec fn is_finished_flow(g: GraphView, v: EngineView, y: int) -> bool {
    &&& 0 <= y < g.len()
    &&& g.kinds[y] is Flow
    &&& g.children[y].len() > 0
    &&& record(v.workflow.states, GraphView::node(y)).child_index == g.children[y].len()
    &&& v.current != Some(GraphView::node(y))
}

/// The walk is through with node `c`: an effect node has its output, a flow node its
/// cursor at its end.
pub open spec fn passed(g: GraphView, v: EngineView, c: NodeId) -> bool {
    if g.kinds[c.0 as int] is Effect {
        record(v.workflow.states, c).raw_output is Some
    } else {
        record(v.workflow.states, c).child_index == g.children[c.0 as int].len()
    }
}

/// The state fits the tree, the walk is through with every child before a cursor, and
/// every finished flow node has the output of its last child.
pub open spec fn sound(g: GraphView, v: EngineView) -> bool {
    &&& consistent(g, cursor_of(g, v))
    &&& forall|y: int| #[trigger] is_finished_flow(g, v, y) ==> rolled_up_at(g, v, y)
    &&& forall|p: int, j: int|
        0 <= p < g.len() && 0 <= j < record(v.workflow.states, GraphView::node(p)).child_index
            ==> #[trigger] passed(g, v, g.children[p][j])
}

/// A tick keeps the state sound: it still fits the tree, and every finished flow node,
/// the one that the tick finishes among them, has the output that its last child had
/// when that child was finished.
#[verifier::rlimit(40)]
pub proof fn lemma_tick_keeps_sound(g: GraphView, v: EngineView, now: time::OffsetDateTime, payload: Json)
    requires
        sound(g, v),
    ensures
        sound(g, tick_spec(g, v, now, payload).0),
{
    let after = tick_spec(g, v, now, payload).0;
    let c = cursor_of(g, v);
    lemma_tick_moves_cursor(g, v, now, payload);
    lemma_step_keeps_consistent(g, c);
    g.lemma_levels();
    let level = g.levels();
    assert forall|i: int| 0 <= i < g.len() implies (#[trigger] GraphView::node(i)).0 == i by {}
    assert forall|p: int, j: int|
        0 <= p < g.len() && 0 <= j < record(after.workflow.states, GraphView::node(p)).child_index implies #[trigger] passed(
        g,
        after,
        g.children[p][j],
    ) by {
        let pid = GraphView::node(p);
        let ch = g.children[p][j];
        assert(cursor_of(g, after).index[p] == record(after.workflow.states, pid).child_index);
        assert(c.index[p] == record(v.workflow.states, pid).child_index);
        assert(0 <= cursor_of(g, after).index[p] <= g.children[p].len());
        g.lemma_child(p, j);
        assert(GraphView::node(ch.0 as int) == ch);
        match v.current {
            None => {
                assert(passed(g, v, g.children[p][j]));
            },
            Some(x) => {
                assert(GraphView::node(x.0 as int) == x);
                if enters(g, c) is Some {
                    assert(passed(g, v, g.children[p][j]));
                } else {
                    match g.parents[x.0 as int] {
                        Some(q) => {
                            assert(g.has(q));
                            assert(GraphView::node(q.0 as int) == q);
                            assert(level[x.0 as int] == level[q.0 as int] + 1);
                            assert(g.ancestor(x.0 as int, 0) == x.0 as int);
                            assert(g.ancestor(x.0 as int, 1) == g.up(g.ancestor(x.0 as int, 0)));
                            assert(points_down(g, c, x.0 as int, 1));
                            assert(g.children[q.0 as int][c.index[q.0 as int]] == x);
                            if p == q.0 as int && j == c.index[p] {
                                assert(ch == x);
                            } else {
                                assert(passed(g, v, g.children[p][j]));
                                if ch == q {
                                    assert(g.parents[q.0 as int] == Some(pid));
                                    assert(level[q.0 as int] == level[p] + 1);
                                    assert(g.ancestor(x.0 as int, 2) == g.up(g.ancestor(x.0 as int, 1)));
                                    assert(g.ancestor(x.0 as int, 2) == p);
                                    assert(points_down(g, c, x.0 as int, 2));
                                    assert(g.children[p][c.index[p]] == q);
                                    assert(false);
                                }
                            }
                        },
                        None => {
                            assert(passed(g, v, g.children[p][j]));
                        },
                    }
                }
            },
        }
    }
    assert forall|y: int| #[trigger] is_finished_flow(g, after, y) implies rolled_up_at(g, after, y) by {
        let last = g.children[y].last();
        let yid = GraphView::node(y);
        assert(last == g.children[y][g.children[y].len() - 1]);
        g.lemma_child(y, g.children[y].len() - 1);
        assert(g.has(last));
        assert(last != yid);
        assert(c.index[y] == record(v.workflow.states, yid).child_index);
        match v.current {
            None => {
                assert(is_finished_flow(g, v, y));
                assert(rolled_up_at(g, v, y));
            },
            Some(x) => {
                assert(GraphView::node(x.0 as int) == x);
                match g.parents[x.0 as int] {
                    Some(pid) => {
                        assert(g.has(pid));
                        assert(level[x.0 as int] == level[pid.0 as int] + 1);
                        assert(GraphView::node(pid.0 as int) == pid);
                    },
                    None => {},
                }
                if enters(g, c) is Some {
                    assert(yid != x);
                    assert(is_finished_flow(g, v, y));
                    assert(rolled_up_at(g, v, y));
                } else if yid == x {
                    assert(c.index[y] == g.children[y].len() || c.index[y] < 0);
                } else {
                    assert(is_finished_flow(g, v, y));
                    assert(rolled_up_at(g, v, y));
                    assert(last != x);
                }
            },
        }
    }
}

/// A state that stands at the root of a tree with no cursor moved is sound.
pub proof fn lemma_fresh_state_is_sound(g: GraphView, v: EngineView)
    requires
        g.is_tree(),
        v.current == Some(g.root),
        forall|i: int| 0 <= i < g.len() ==> record(v.workflow.states, #[trigger] GraphView::node(i)).child_index == 0,
    ensures
        sound(g, v),
        cursor_of(g, v).current == Some(g.root),
        forall|y: int| 0 <= y < g.len() ==> cursor_of(g, v).index[y] == 0,
{
    g.lemma_levels();
    let c = cursor_of(g, v);
    assert forall|y: int| 0 <= y < g.len() implies c.index[y] == 0 by {
        assert(record(v.workflow.states, GraphView::node(y)).child_index == 0);
    }
}

/// The completions that a tick tells are the node that it finishes, if it finishes one.
pub proof fn lemma_tick_tells_what_it_finishes(g: GraphView, v: EngineView)
    ensures
        completions(tick_events(g, v)) == match finishing(g, v) {
            Some(x) => seq![x],
            None => Seq::<NodeId>::empty(),
        },
{
    let events = tick_events(g, v);
    let empty = Seq::<LifecycleEvent>::empty();
    assert(completions(empty) =~= Seq::<NodeId>::empty());
    let begin = if v.status == Status::Pending {
        seq![LifecycleEvent::WorkflowStarted]
    } else {
        empty
    };
    assert(begin.len() > 0 ==> begin.drop_last() =~= empty);
    assert(completions(begin) =~= Seq::<NodeId>::empty());
    match v.current {
        None => {
            assert(events.drop_last() =~= begin);
        },
        Some(id) => {
            let started = if record(v.workflow.states, id).started_at is None {
                begin.push(LifecycleEvent::TaskStarted(id))
            } else {
                begin
            };
            assert(started.len() > begin.len() ==> started.drop_last() =~= begin);
            assert(completions(started) =~= Seq::<NodeId>::empty());
            if finishing(g, v) is Some {
                assert(events.drop_last() =~= started);
                assert(events.last() == LifecycleEvent::TaskCompleted(id));
                assert(completions(events) =~= seq![id]);
            }
        },
    }
}

/// Where the walk is over, the output of a node that it is through with is the output of
/// the node at the end of its chain of last children, where that node is an effect
/// node: outputs roll up from the last leaf, level by level.
pub proof fn lemma_output_rolls_up_from_the_last_leaf(g: GraphView, v: EngineView, y: int)
    requires
        sound(g, v),
        v.current is None,
        0 <= y < g.len(),
        passed(g, v, GraphView::node(y)),
        g.kinds[g.source_of(y)] is Effect,
    ensures
        0 <= g.source_of(y) < g.len(),
        record(v.workflow.states, GraphView::node(g.source_of(y))).raw_output is Some,
        record(v.workflow.states, GraphView::node(y)).raw_output == record(
            v.workflow.states,
            GraphView::node(g.source_of(y)),
        ).raw_output,
    decreases g.len() - g.level(y),
{
    g.lemma_levels();
    assert(GraphView::node(y).0 == y);
    if g.kinds[y] is Flow && g.children[y].len() > 0 {
        let j = g.children[y].len() - 1;
        let last = g.children[y].last();
        g.lemma_child(y, j);
        assert(last == g.children[y][j]);
        assert(GraphView::node(last.0 as int) == last);
        assert(passed(g, v, g.children[y][j]));
        lemma_output_rolls_up_from_the_last_leaf(g, v, last.0 as int);
        assert(is_finished_flow(g, v, y));
        assert(rolled_up_at(g, v, y));
    }
}

} // verus!
