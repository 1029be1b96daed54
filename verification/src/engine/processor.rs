use vstd::prelude::*;
use std::sync::Arc;
use super::cursor::{
    consistent, cursor_of, finished, finishes, fuel, lemma_consistent_is_tickable, lemma_step_keeps_consistent,
    lemma_tick_moves_cursor, steps,
};
use super::laws::{
    lemma_effect_output_is_recorded, lemma_finished_node_is_spent, lemma_tick_keeps_sound,
    lemma_tick_tells_what_it_finishes, sound,
};
use super::model::{
    absorbed, arrive, awaits_effect, handed_up, output_of, record, rolled_up, tick_events, tick_spec,
    tickable, with_child_consumed, with_output, EngineView, Outcome, Status,
};
use super::observer::{completions, lemma_completions_add, LifecycleEvent, LifecycleObserver, Silent};
use crate::activities::executor::{EffectContext, EffectExecutor};
use crate::activities::registry::{
    dispatches, lemma_unmatched_gives_failure, no_executor_message, unmatched, EffectRegistry,
};
use crate::errors::WorkflowError;
use crate::messaging::Message;
use crate::nodes::graph::{GraphView, NodeGraph};
use crate::nodes::id::NodeId;
use crate::nodes::instance::SimpleInstance;
use crate::nodes::kind::NodeKind;
use crate::outbox::{Backoff, OutboxItem};
use crate::payload::{error_json, error_payload, json_view, null_payload, Json};
use crate::types::{WorkflowName, WorkflowState, WorkflowVersion};

verus! {

/// What a tick reports to the driver.
#[derive(Debug)]
pub enum Step {
    /// The node to process next.
    Next(NodeId),
    /// The workflow waits; the item tells for what.
    Wait(OutboxItem),
    /// A message is to be sent.
    Emit(Message),
    /// A step is to be tried again.
    Retry(Backoff),
    /// The walk is over; the payload is the workflow's output.
    Done(serde_json::Value),
    /// The workflow has failed.
    Fault(WorkflowError),
}

/// A step as an outcome of the model; nothing for the steps that no tick gives.
pub open spec fn outcome_of(step: Step) -> Option<Outcome> {
    match step {
        Step::Next(id) => Some(Outcome::Next(id)),
        Step::Done(v) => Some(Outcome::Done(json_view(v))),
        _ => None,
    }
}

/// The document of the payload handed to a tick; `null` where none is handed.
pub open spec fn handed(payload: Option<serde_json::Value>) -> Json {
    match payload {
        Some(v) => json_view(v),
        None => Json::Null,
    }
}

/// True when `ctx` describes the effect node that the processor stands at.
pub open spec fn describes_current(g: GraphView, v: EngineView, ctx: EffectContext) -> bool {
    &&& v.current == Some(ctx.id)
    &&& g.kinds[ctx.id.0 as int] == NodeKind::Effect(ctx.kind)
    &&& ctx.name@ == g.names[ctx.id.0 as int]
}

/// True when `payload` is one that the effect of the current node may have given through
/// the registry: the document of a result that the registry dispatches for the node's
/// context, a failure absorbed into an error document. Where the current node is no
/// effect node, every payload will do.
pub open spec fn effect_gave<E: EffectExecutor>(
    executors: Seq<Arc<E>>,
    g: GraphView,
    v: EngineView,
    payload: Json,
) -> bool {
    awaits_effect(g, v) ==> exists|
        ctx: EffectContext,
        result: Result<serde_json::Value, WorkflowError>,
    |
        {
            &&& describes_current(g, v, ctx)
            &&& #[trigger] dispatches(executors, ctx, result)
            &&& payload == absorbed(result)
        }
}

/// True when the output of node `y`, if it has one, is a payload that the registry may have
/// given for the node: the document of a result that it dispatches for the node's
/// context.
pub open spec fn settled<E: EffectExecutor>(
    executors: Seq<Arc<E>>,
    g: GraphView,
    v: EngineView,
    y: int,
) -> bool {
    record(v.workflow.states, GraphView::node(y)).raw_output matches Some(out)
        ==> exists|ctx: EffectContext, result: Result<serde_json::Value, WorkflowError>|
        {
            &&& ctx.id == GraphView::node(y)
            &&& g.kinds[y] == NodeKind::Effect(ctx.kind)
            &&& ctx.name@ == g.names[y]
            &&& #[trigger] dispatches(executors, ctx, result)
            &&& out == absorbed(result)
        }
}

/// True when the output of every effect node is one that the registry may have given.
pub open spec fn effects_settled<E: EffectExecutor>(
    executors: Seq<Arc<E>>,
    g: GraphView,
    v: EngineView,
) -> bool {
    forall|y: int| 0 <= y < g.len() && g.kinds[y] is Effect ==> #[trigger] settled(executors, g, v, y)
}

/// A tick that records what the registry gave keeps the outputs of the effect nodes
/// settled.
pub proof fn lemma_tick_keeps_settled<E: EffectExecutor>(
    executors: Seq<Arc<E>>,
    g: GraphView,
    v: EngineView,
    now: time::OffsetDateTime,
    payload: Json,
)
    requires
        tickable(g, v),
        effects_settled(executors, g, v),
        effect_gave(executors, g, v, payload),
    ensures
        effects_settled(executors, g, tick_spec(g, v, now, payload).0),
{
    let after = tick_spec(g, v, now, payload).0;
    assert forall|y: int| 0 <= y < g.len() && g.kinds[y] is Effect implies #[trigger] settled(
        executors,
        g,
        after,
        y,
    ) by {
        let yid = GraphView::node(y);
        assert(yid.0 == y);
        assert(settled(executors, g, v, y));
        match v.current {
            None => {},
            Some(x) => {
                match g.parents[x.0 as int] {
                    Some(q) => {
                        assert(g.has(q));
                    },
                    None => {},
                }
                if x == yid {
                    let (ctx, result) = choose|
                        ctx: EffectContext,
                        result: Result<serde_json::Value, WorkflowError>,
                    |
                        {
                            &&& describes_current(g, v, ctx)
                            &&& #[trigger] dispatches(executors, ctx, result)
                            &&& payload == absorbed(result)
                        };
                    assert(record(after.workflow.states, yid).raw_output == Some(payload));
                    assert(dispatches(executors, ctx, result));
                } else {
                    assert(record(after.workflow.states, yid).raw_output
                        == record(v.workflow.states, yid).raw_output);
                }
            },
        }
    }
}

/// The payload that is recorded for an effect's result: the payload itself, or, for a
/// failure, an object whose member `error` is the failure's message.
pub fn absorb(result: Result<serde_json::Value, WorkflowError>) -> (payload: serde_json::Value)
    ensures
        json_view(payload) == absorbed(result),
{
    match result {
        Ok(v) => v,
        Err(e) => error_payload(e.message()),
    }
}

/// The status that a run leaves: `Completed` where the walk was over before, else
/// `Running` in place of `Pending`.
pub open spec fn status_after_run(v: EngineView) -> Status {
    if v.current is None {
        Status::Completed
    } else if v.status == Status::Pending {
        Status::Running
    } else {
        v.status
    }
}

/// True when a run of `k` ticks leads from `before` to `after`: the cursors have made
/// `k` steps, the observer has been told the completion of the nodes that those steps
/// finish, in their order, and the workflow has kept its identity.
pub open spec fn ran(
    g: GraphView,
    before: EngineView,
    after: EngineView,
    heard_before: Seq<LifecycleEvent>,
    heard_after: Seq<LifecycleEvent>,
    k: nat,
) -> bool {
    &&& cursor_of(g, after) == steps(g, cursor_of(g, before), k)
    &&& completions(heard_after) == completions(heard_before) + finished(g, cursor_of(g, before), k)
    &&& after.workflow.workflow_id == before.workflow.workflow_id
    &&& after.workflow.workflow_name == before.workflow.workflow_name
    &&& after.workflow.workflow_version == before.workflow.workflow_version
}

/// True when one tick may lead from `a` to `b`: at some time, with a payload that the
/// effect of the current node may have given.
pub open spec fn is_tick<E: EffectExecutor>(
    executors: Seq<Arc<E>>,
    g: GraphView,
    a: EngineView,
    b: EngineView,
) -> bool {
    exists|now: time::OffsetDateTime, payload: Json|
        effect_gave(executors, g, a, payload) && (#[trigger] tick_spec(g, a, now, payload)).0 == b
}

/// What the observer is told along a sequence of states, each the result of a tick from
/// the one before it.
pub open spec fn events_along(g: GraphView, trace: Seq<EngineView>) -> Seq<LifecycleEvent>
    decreases trace.len(),
{
    if trace.len() <= 1 {
        Seq::empty()
    } else {
        events_along(g, trace.drop_last()) + tick_events(g, trace[trace.len() - 2])
    }
}

/// True when `trace` is a run: a sequence of states, each the result of a tick from the
/// one before it, in which the walk is over in the last state and in no state between
/// the first and the last.
pub open spec fn is_run<E: EffectExecutor>(executors: Seq<Arc<E>>, g: GraphView, trace: Seq<EngineView>) -> bool {
    &&& trace.len() >= 2
    &&& forall|i: int| 0 <= i < trace.len() - 1 ==> is_tick(executors, g, #[trigger] trace[i], trace[i + 1])
    &&& forall|i: int| 0 < i < trace.len() - 1 ==> (#[trigger] trace[i]).current is Some
    &&& trace.last().current is None
}

/// A tick from a state whose cursor fits the tree extends a run by one step: the cursor
/// still fits, a sound state stays sound, the run is one step longer, and while the walk
/// goes on the fuel goes down. The tick reports the end exactly when it leaves the walk
/// over; where it ends a walk that was going on, it has finished the root.
pub proof fn lemma_tick_extends_run(
    g: GraphView,
    first: EngineView,
    before: EngineView,
    heard: Seq<LifecycleEvent>,
    told: Seq<LifecycleEvent>,
    k: nat,
    now: time::OffsetDateTime,
    payload: Json,
)
    requires
        consistent(g, cursor_of(g, before)),
        ran(g, first, before, heard, told, k),
    ensures
        consistent(g, cursor_of(g, tick_spec(g, before, now, payload).0)),
        sound(g, before) ==> sound(g, tick_spec(g, before, now, payload).0),
        ran(
            g,
            first,
            tick_spec(g, before, now, payload).0,
            heard,
            told + tick_events(g, before),
            k + 1,
        ),
        fuel(g, cursor_of(g, tick_spec(g, before, now, payload).0)) >= 0,
        before.current is Some ==> fuel(
            g,
            cursor_of(g, tick_spec(g, before, now, payload).0),
        ) < fuel(g, cursor_of(g, before)),
        tick_spec(g, before, now, payload).1 is Done
            <==> tick_spec(g, before, now, payload).0.current is None,
        tick_spec(g, before, now, payload).0.status == (if before.current is None {
            Status::Completed
        } else if before.status == Status::Pending {
            Status::Running
        } else {
            before.status
        }),
        before.current is Some && tick_spec(g, before, now, payload).1 is Done
            && g.kinds[g.root.0 as int] is Flow ==> record(
            tick_spec(g, before, now, payload).0.workflow.states,
            g.root,
        ).child_index == g.children[g.root.0 as int].len(),
{
    let after = tick_spec(g, before, now, payload).0;
    let outcome = tick_spec(g, before, now, payload).1;
    let start = cursor_of(g, first);
    let c = cursor_of(g, before);
    let c2 = cursor_of(g, after);
    lemma_tick_moves_cursor(g, before, now, payload);
    if sound(g, before) {
        lemma_tick_keeps_sound(g, before, now, payload);
    }
    lemma_step_keeps_consistent(g, c);
    lemma_tick_tells_what_it_finishes(g, before);
    lemma_completions_add(told, tick_events(g, before));
    assert(steps(g, start, k + 1) == super::cursor::step(g, steps(g, start, k)));
    let done = finished(g, start, k);
    assert(finished(g, start, k + 1) == match finishes(g, steps(g, start, k)) {
        Some(x) => done.push(x),
        None => done,
    });
    match finishes(g, c) {
        Some(x) => {
            assert(completions(heard) + done.push(x) =~= (
            completions(heard) + done) + seq![x]);
        },
        None => {
            assert((completions(heard) + done) + Seq::<NodeId>::empty()
                =~= completions(heard) + done);
        },
    }
    assert(c2 == steps(g, start, k + 1));
    if before.current is Some && outcome is Done {
        let x = before.current->0;
        assert(g.parents[x.0 as int] is None);
        g.lemma_levels();
        assert(x.0 as int == g.root.0 as int);
        assert(x == g.root);
        assert(GraphView::node(x.0 as int) == x);
        if g.kinds[x.0 as int] is Flow {
            lemma_finished_node_is_spent(g, c, x.0 as int);
            assert(c2.index[x.0 as int] == g.children[x.0 as int].len());
        }
    }
}

/// The tick state machine: it advances a workflow by one node per tick.
pub struct Processor<E: EffectExecutor, O: LifecycleObserver = Silent> {
    pub workflow_state: WorkflowState,
    pub effects: EffectRegistry<E>,
    pub status: Status,
    pub graph: NodeGraph,
    /// The node to process next. It is empty once the walk is over.
    pub current: Option<NodeId>,
    /// The observer that is told of what the processor does.
    pub observer: O,
    /// What the observer was told so far, oldest first.
    pub told: Ghost<Seq<LifecycleEvent>>,
}

impl<E: EffectExecutor, O: LifecycleObserver> View for Processor<E, O> {
    type V = EngineView;

    open spec fn view(&self) -> EngineView {
        EngineView { status: self.status, current: self.current, workflow: self.workflow_state@ }
    }
}

impl<E: EffectExecutor> Processor<E, Silent> {
    /// A processor that has not ticked yet. It stands at the node that the workflow state
    /// names, and tells no one of what it does.
    pub fn new(workflow_state: WorkflowState, effects: EffectRegistry<E>, graph: NodeGraph) -> (p: Self)
        ensures
            p.workflow_state == workflow_state,
            p.effects == effects,
            p.graph == graph,
            p.status == Status::Pending,
            p.current == Some(workflow_state.current_node),
            p.told@ == Seq::<LifecycleEvent>::empty(),
    {
        Processor {
            current: Some(workflow_state.current_node),
            workflow_state,
            effects,
            status: Status::Pending,
            graph,
            observer: Silent,
            told: Ghost(Seq::empty()),
        }
    }
}

impl<E: EffectExecutor, O: LifecycleObserver> Processor<E, O> {
    /// The same processor with `observer` in place of the one it had.
    pub fn with_observer<P: LifecycleObserver>(self, observer: P) -> (p: Processor<E, P>)
        ensures
            p@ == self@,
            p.effects == self.effects,
            p.graph == self.graph,
            p.observer == observer,
            p.told@ == self.told@,
    {
        Processor {
            workflow_state: self.workflow_state,
            effects: self.effects,
            status: self.status,
            graph: self.graph,
            current: self.current,
            observer,
            told: self.told,
        }
    }

    /// The workflow's output: what the root has recorded, or `null` where it has recorded
    /// nothing yet.
    pub fn output(&self) -> (out: serde_json::Value)
        ensures
            json_view(out) == output_of(self.graph@, self.workflow_state@.states),
    {
        match self.workflow_state.current_states.output(self.graph.root()) {
            Some(v) => v,
            None => null_payload(),
        }
    }

    /// The name of the workflow.
    pub fn workflow_name(&self) -> (name: &WorkflowName)
        ensures
            *name == self.workflow_state.workflow_name,
    {
        &self.workflow_state.workflow_name
    }

    /// The version of the workflow.
    pub fn workflow_version(&self) -> (version: &WorkflowVersion)
        ensures
            *version == self.workflow_state.workflow_version,
    {
        &self.workflow_state.workflow_version
    }

    /// Tells whether a tick can be made: whether the current node is in the graph and the
    /// cursor that the tick would move on has room to move.
    pub fn can_tick(&self) -> (b: bool)
        requires
            self.graph.wf(),
        ensures
            b == tickable(self.graph@, self@),
    {
        match self.current {
            None => true,
            Some(id) => {
                if id.index() >= self.graph.len() {
                    return false;
                }
                let enters = match self.graph.kind(id) {
                    NodeKind::Flow(_) => {
                        let cursor = self.workflow_state.current_states.child_index(id);
                        cursor >= 0 && (cursor as usize) < self.graph.children(id).len()
                    },
                    NodeKind::Effect(_) => false,
                };
                if enters {
                    true
                } else {
                    match self.graph.parent(id) {
                        Some(p) => self.workflow_state.current_states.child_index(p) < i32::MAX,
                        None => true,
                    }
                }
            },
        }
    }

    /// The effect that the next tick waits for: the context of the current node, where
    /// that is an effect node.
    pub fn pending_effect(&self) -> (r: Option<EffectContext>)
        requires
            tickable(self.graph@, self@),
        ensures
            r is Some <==> awaits_effect(self.graph@, self@),
            r matches Some(ctx) ==> describes_current(self.graph@, self@, ctx),
    {
        match self.current {
            Some(id) => match self.graph.kind(id) {
                NodeKind::Effect(kind) => Some(
                    EffectContext { id, name: self.graph.name(id).to_owned(), kind: *kind },
                ),
                NodeKind::Flow(_) => None,
            },
            None => None,
        }
    }

    /// Tells the observer that the workflow has started.
    fn tell_workflow_started(&mut self)
        ensures
            final(self)@ == old(self)@,
            final(self).graph == old(self).graph,
            final(self).effects == old(self).effects,
            final(self).told@ == old(self).told@.push(LifecycleEvent::WorkflowStarted),
    {
        self.observer.on_workflow_started();
        self.told = Ghost(self.told@.push(LifecycleEvent::WorkflowStarted));
    }

    /// Tells the observer that the walk is over.
    fn tell_workflow_completed(&mut self)
        ensures
            final(self)@ == old(self)@,
            final(self).graph == old(self).graph,
            final(self).effects == old(self).effects,
            final(self).told@ == old(self).told@.push(LifecycleEvent::WorkflowCompleted),
    {
        self.observer.on_workflow_completed();
        self.told = Ghost(self.told@.push(LifecycleEvent::WorkflowCompleted));
    }

    /// Tells the observer that a node is visited for the first time.
    fn tell_task_started(&mut self, node: &SimpleInstance)
        ensures
            final(self)@ == old(self)@,
            final(self).graph == old(self).graph,
            final(self).effects == old(self).effects,
            final(self).told@ == old(self).told@.push(LifecycleEvent::TaskStarted(node.id)),
    {
        self.observer.on_task_started(node);
        self.told = Ghost(self.told@.push(LifecycleEvent::TaskStarted(node.id)));
    }

    /// Tells the observer that a node is finished.
    fn tell_task_completed(&mut self, node: &SimpleInstance)
        ensures
            final(self)@ == old(self)@,
            final(self).graph == old(self).graph,
            final(self).effects == old(self).effects,
            final(self).told@ == old(self).told@.push(LifecycleEvent::TaskCompleted(node.id)),
    {
        self.observer.on_task_completed(node);
        self.told = Ghost(self.told@.push(LifecycleEvent::TaskCompleted(node.id)));
    }

    /// Control goes back from the finished node `id` to its parent, or the walk ends.
    fn hand_up(&mut self, id: NodeId) -> (step: Step)
        requires
            old(self).graph.wf(),
            old(self).graph@.has(id),
            old(self).graph@.parents[id.0 as int] matches Some(p) ==> record(
                old(self).workflow_state@.states,
                p,
            ).child_index < i32::MAX,
        ensures
            final(self).graph == old(self).graph,
            final(self).effects == old(self).effects,
            final(self).observer == old(self).observer,
            final(self).told == old(self).told,
            (final(self)@, outcome_of(step)->0) == handed_up(
                old(self).graph@,
                old(self).status,
                old(self).workflow_state@,
                id,
            ),
            outcome_of(step) is Some,
    {
        match self.graph.parent(id) {
            Some(p) => {
                let mut state = self.workflow_state.current_states.take(p);
                state.child_index = state.child_index + 1;
                self.workflow_state.current_states.put(p, state);
                self.current = Some(p);
                self.workflow_state.current_node = p;
                assert(final(self).workflow_state@.states =~= with_child_consumed(
                    old(self).workflow_state@.states,
                    p,
                ));
                Step::Next(p)
            },
            None => {
                self.current = None;
                Step::Done(self.output())
            },
        }
    }

    /// One step of the walk. An effect node is handed to the registry, and what comes back
    /// is recorded as the node's output, a failure as an error document; a flow node is
    /// entered, or finished once its children are. No failure of an effect fails the tick.
    pub fn tick(&mut self) -> (step: Step)
        requires
            tickable(old(self).graph@, old(self)@),
        ensures
            final(self).graph == old(self).graph,
            final(self).effects == old(self).effects,
            outcome_of(step) is Some,
            exists|now: time::OffsetDateTime, payload: Json|
                {
                    &&& effect_gave(old(self).effects@, old(self).graph@, old(self)@, payload)
                    &&& (final(self)@, outcome_of(step)->0) == #[trigger] tick_spec(
                        old(self).graph@,
                        old(self)@,
                        now,
                        payload,
                    )
                },
            final(self).told@ == old(self).told@
                + tick_events(old(self).graph@, old(self)@),
            effects_settled(old(self).effects@, old(self).graph@, old(self)@) ==> effects_settled(
                old(self).effects@,
                old(self).graph@,
                final(self)@,
            ),
            old(self).current matches Some(id) ==> (old(self).graph@.kinds[id.0 as int] matches NodeKind::Effect(
                kind,
            ) ==> (unmatched(old(self).effects@, kind)
                ==> record(final(self)@.workflow.states, id).raw_output == Some(
                error_json(no_executor_message(kind)),
            ))),
    {
        let now = time::OffsetDateTime::now_utc();
        let payload = match self.pending_effect() {
            Some(ctx) => {
                let result = self.effects.execute(&ctx);
                let payload = absorb(result);
                assert(effect_gave(self.effects@, self.graph@, self@, handed(Some(payload)))) by {
                    assert(describes_current(self.graph@, self@, ctx));
                    assert(dispatches(self.effects@, ctx, result));
                }
                proof {
                    if unmatched(self.effects@, ctx.kind) {
                        lemma_unmatched_gives_failure(self.effects@, ctx, result);
                    }
                }
                Some(payload)
            },
            None => None,
        };
        let step = self.advance(now, payload);
        assert((final(self)@, outcome_of(step)->0) == tick_spec(
            old(self).graph@,
            old(self)@,
            now,
            handed(payload),
        ));
        proof {
            if effects_settled(old(self).effects@, old(self).graph@, old(self)@) {
                lemma_tick_keeps_settled(
                    old(self).effects@,
                    old(self).graph@,
                    old(self)@,
                    now,
                    handed(payload),
                );
            }
            if awaits_effect(old(self).graph@, old(self)@) {
                lemma_effect_output_is_recorded(old(self).graph@, old(self)@, now, handed(payload));
            }
        }
        step
    }

    /// Ticks until the walk is over, and gives the workflow's output. The graph must be a
    /// tree and the cursors must fit it, which they do before the first tick of a
    /// workflow and after every tick from a state in which they did.
    #[verifier::rlimit(40)]
    pub fn run(&mut self) -> (out: serde_json::Value)
        requires
            consistent(old(self).graph@, cursor_of(old(self).graph@, old(self)@)),
        ensures
            final(self).graph == old(self).graph,
            final(self).effects == old(self).effects,
            final(self).current is None,
            final(self).status == status_after_run(old(self)@),
            consistent(old(self).graph@, cursor_of(old(self).graph@, final(self)@)),
            sound(old(self).graph@, old(self)@) ==> sound(old(self).graph@, final(self)@),
            effects_settled(old(self).effects@, old(self).graph@, old(self)@) ==> effects_settled(
                old(self).effects@,
                old(self).graph@,
                final(self)@,
            ),
            json_view(out) == output_of(old(self).graph@, final(self)@.workflow.states),
            exists|k: nat|
                #[trigger] ran(
                    old(self).graph@,
                    old(self)@,
                    final(self)@,
                    old(self).told@,
                    final(self).told@,
                    k,
                ),
            old(self).current is Some && old(self).graph@.kinds[old(self).graph@.root.0 as int] is Flow
                ==> record(
                final(self)@.workflow.states,
                old(self).graph@.root,
            ).child_index == old(self).graph@.children[old(self).graph@.root.0 as int].len(),
    {
        let ghost g = self.graph@;
        let ghost first = self@;
        let ghost start = cursor_of(g, self@);
        let ghost heard = self.told@;
        let ghost mut k: nat = 0;
        let ghost mut trace: Seq<EngineView> = seq![self@];
        proof {
            assert(heard + events_along(g, trace) =~= heard);
            assert(finished(g, start, 0) =~= Seq::<NodeId>::empty());
            assert(completions(heard) + Seq::<NodeId>::empty()
                =~= completions(heard));
        }
        loop
            invariant
                self.graph == old(self).graph,
                self.effects == old(self).effects,
                self.graph@ == g,
                first == old(self)@,
                heard == old(self).told@,
                start == cursor_of(g, first),
                consistent(g, cursor_of(g, self@)),
                sound(g, first) ==> sound(g, self@),
                effects_settled(self.effects@, g, first) ==> effects_settled(self.effects@, g, self@),
                ran(g, first, self@, heard, self.told@, k),
                trace.len() == k + 1,
                trace.first() == first,
                trace.last() == self@,
                forall|i: int|
                    0 <= i < trace.len() - 1 ==> is_tick(self.effects@, g, #[trigger] trace[i], trace[i + 1]),
                forall|i: int| 0 < i < trace.len() ==> (#[trigger] trace[i]).current is Some,
                self.told@ == heard + events_along(g, trace),
                k == 0 ==> self@ == first,
                k > 0 ==> first.current is Some && self.current is Some && self.status == status_after_run(
                    first,
                ),
            decreases fuel(g, cursor_of(g, self@)),
        {
            let ghost before = self@;
            let ghost told = self.told@;
            proof {
                lemma_consistent_is_tickable(g, before);
            }
            let step = self.tick();
            proof {
                let (now, payload) = choose|now: time::OffsetDateTime, payload: Json|
                    {
                        &&& effect_gave(self.effects@, g, before, payload)
                        &&& (self@, outcome_of(step)->0) == #[trigger] tick_spec(
                            g,
                            before,
                            now,
                            payload,
                        )
                    };
                lemma_tick_extends_run(g, first, before, heard, told, k, now, payload);
                k = k + 1;
                let longer = trace.push(self@);
                assert(longer.drop_last() =~= trace);
                assert(is_tick(self.effects@, g, before, self@));
                assert forall|i: int| 0 <= i < longer.len() - 1 implies is_tick(
                    self.effects@,
                    g,
                    #[trigger] longer[i],
                    longer[i + 1],
                ) by {
                    if i < trace.len() - 1 {
                        assert(is_tick(self.effects@, g, trace[i], trace[i + 1]));
                    }
                }
                assert(heard + (events_along(g, trace) + tick_events(g, before)) =~= (heard + events_along(
                    g,
                    trace,
                )) + tick_events(g, before));
                trace = longer;
            }
            match step {
                Step::Done(v) => {
                    return v;
                },
                Step::Fault(_) => {
                    return self.output();
                },
                _ => {},
            }
        }
    }

    /// One step of the walk, with the time and the effect's payload handed in. `payload`
    /// is what the effect of the current node gave; it is read only where the current
    /// node is an effect node.
    pub fn advance(&mut self, now: time::OffsetDateTime, payload: Option<serde_json::Value>) -> (step: Step)
        requires
            tickable(old(self).graph@, old(self)@),
            awaits_effect(old(self).graph@, old(self)@) ==> payload is Some,
        ensures
            final(self).graph == old(self).graph,
            final(self).effects == old(self).effects,
            outcome_of(step) is Some,
            (final(self)@, outcome_of(step)->0) == tick_spec(
                old(self).graph@,
                old(self)@,
                now,
                handed(payload),
            ),
            final(self).told@ == old(self).told@
                + tick_events(old(self).graph@, old(self)@),
    {
        let ghost g = self.graph@;
        let ghost before = self@;
        let ghost heard = self.told@;
        match self.status {
            Status::Pending => {
                self.status = Status::Running;
                self.tell_workflow_started();
            },
            _ => {},
        }
        let id = match self.current {
            Some(id) => id,
            None => {
                self.status = Status::Completed;
                self.tell_workflow_completed();
                assert(self.told@ =~= heard + tick_events(g, before));
                return Step::Done(self.output());
            },
        };
        let kind = *self.graph.kind(id);
        let mut state = self.workflow_state.current_states.take(id);
        let fresh = state.started_at.is_none();
        if fresh {
            state.started_at = Some(now);
        }
        let ghost arrived = arrive(before.workflow.states, id, now);
        let instance = SimpleInstance::new_at(
            id,
            self.graph.name(id),
            self.graph.position(id).clone(),
            now,
        );
        if fresh {
            self.tell_task_started(&instance);
        }
        match kind {
            NodeKind::Effect(_) => {
                state.raw_output = payload;
                self.workflow_state.current_states.put(id, state);
                assert(self.workflow_state@.states =~= with_output(arrived, id, handed(payload)));
                self.tell_task_completed(&instance);
                assert(self.told@ =~= heard + tick_events(g, before));
                self.hand_up(id)
            },
            NodeKind::Flow(_) => {
                let cursor = state.child_index;
                self.workflow_state.current_states.put(id, state);
                assert(self.workflow_state@.states =~= arrived);
                let children = self.graph.children(id);
                if cursor >= 0 && (cursor as usize) < children.len() {
                    let child = children[cursor as usize];
                    self.current = Some(child);
                    self.workflow_state.current_node = child;
                    assert(self.told@ =~= heard + tick_events(g, before));
                    Step::Next(child)
                } else {
                    if children.len() > 0 {
                        let last = children[children.len() - 1];
                        match self.workflow_state.current_states.output(last) {
                            Some(out) => {
                                let mut state = self.workflow_state.current_states.take(id);
                                state.raw_output = Some(out);
                                self.workflow_state.current_states.put(id, state);
                                assert(self.workflow_state@.states =~= rolled_up(g, arrived, id));
                            },
                            None => {},
                        }
                    }
                    self.tell_task_completed(&instance);
                    assert(self.told@ =~= heard + tick_events(g, before));
                    self.hand_up(id)
                }
            },
        }
    }
}

} // verus!
