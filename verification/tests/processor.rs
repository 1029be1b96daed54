use std::sync::Arc;

use serde_json::Value;
use tideloom::activities::executor::{EffectContext, EffectExecutor, SimpleRunExecutor};
use tideloom::activities::registry::EffectRegistry;
use tideloom::engine::model::Status;
use tideloom::engine::node_states::NodeStates;
use tideloom::engine::observer::LifecycleObserver;
use tideloom::engine::processor::{absorb, Processor, Step};
use tideloom::errors::WorkflowError;
use tideloom::nodes::graph::NodeGraph;
use tideloom::nodes::id::NodeId;
use tideloom::nodes::instance::SimpleInstance;
use tideloom::nodes::kind::{EffectKind, FlowKind, NodeKind};
use tideloom::nodes::position::NodePosition;
use tideloom::types::{WorkflowId, WorkflowName, WorkflowState, WorkflowVersion};

fn object(pairs: &[(&str, &str)]) -> Value {
    let mut m = serde_json::Map::new();
    for (k, v) in pairs {
        m.insert(k.to_string(), Value::String(v.to_string()));
    }
    Value::Object(m)
}

fn fresh_state(graph: &NodeGraph) -> WorkflowState {
    WorkflowState {
        workflow_id: WorkflowId::random(),
        workflow_name: WorkflowName("demo".to_string()),
        workflow_version: WorkflowVersion("1.0.0".to_string()),
        current_node: graph.root(),
        current_states: NodeStates::new_for(graph.root(), Value::Null),
    }
}

fn root_with_run() -> (NodeGraph, NodeId) {
    let mut g = NodeGraph::new_root("root");
    let run = g.add_node(
        NodeKind::Effect(EffectKind::Run),
        "run",
        NodePosition::root().add_name("run"),
    );
    let root = g.root();
    g.add_child(root, run);
    (g, run)
}

/// root -> [a (Run), seq (Do) -> [b (Run), c (Run)], d (Run)]
fn nested() -> (NodeGraph, Vec<NodeId>) {
    let mut g = NodeGraph::new_root("root");
    let root = g.root();
    let a = g.add_node(NodeKind::Effect(EffectKind::Run), "a", NodePosition::root().add_name("a"));
    let seq = g.add_node(NodeKind::Flow(FlowKind::Do), "seq", NodePosition::root().add_name("seq"));
    let b = g.add_node(
        NodeKind::Effect(EffectKind::Run),
        "b",
        NodePosition::root().add_name("seq").add_index(0),
    );
    let c = g.add_node(
        NodeKind::Effect(EffectKind::Run),
        "c",
        NodePosition::root().add_name("seq").add_index(1),
    );
    let d = g.add_node(NodeKind::Effect(EffectKind::Run), "d", NodePosition::root().add_name("d"));
    g.add_child(root, a);
    g.add_child(root, seq);
    g.add_child(seq, b);
    g.add_child(seq, c);
    g.add_child(root, d);
    (g, vec![root, a, seq, b, c, d])
}

fn child_index<E: EffectExecutor, O: LifecycleObserver>(p: &Processor<E, O>, id: NodeId) -> i32 {
    p.workflow_state.current_states.0.get(&id.0).map(|s| s.child_index).unwrap_or(0)
}

fn raw_output<E: EffectExecutor, O: LifecycleObserver>(p: &Processor<E, O>, id: NodeId) -> Option<Value> {
    p.workflow_state.current_states.0.get(&id.0).and_then(|s| s.raw_output.clone())
}

#[derive(Default)]
struct Recorder {
    events: Vec<String>,
}

impl LifecycleObserver for Recorder {
    fn on_workflow_started(&mut self) {
        self.events.push("workflow started".to_string());
    }

    fn on_workflow_completed(&mut self) {
        self.events.push("workflow completed".to_string());
    }

    fn on_task_started(&mut self, node: &SimpleInstance) {
        self.events.push(format!("started {}", node.name));
    }

    fn on_task_completed(&mut self, node: &SimpleInstance) {
        self.events.push(format!("completed {}", node.name));
    }

    fn on_task_faulted(&mut self, node: &SimpleInstance) {
        self.events.push(format!("faulted {}", node.name));
    }
}

struct Failing;

impl EffectExecutor for Failing {
    fn can_execute(&self, _kind: &EffectKind) -> bool {
        true
    }

    fn execute(&self, _ctx: &EffectContext) -> Result<Value, WorkflowError> {
        Err(WorkflowError::Task { message: "boom".to_string() })
    }
}

#[test]
fn ticks_through_root_and_run() {
    let (g, run) = root_with_run();
    let root = g.root();
    let state = fresh_state(&g);
    let effects = EffectRegistry::new().with_executor(Arc::new(SimpleRunExecutor));
    let mut p = Processor::new(state, effects, g);
    assert_eq!(p.status, Status::Pending);
    assert_eq!(p.current, Some(root));
    let expected = object(&[("task", "run"), ("result", "ok")]);

    match p.tick() {
        Step::Next(id) => assert_eq!(id, run),
        other => panic!("unexpected step {:?}", other),
    }
    assert_eq!(p.status, Status::Running);
    assert_eq!(p.current, Some(run));
    assert_eq!(p.workflow_state.current_node, run);
    assert_eq!(child_index(&p, root), 0);

    match p.tick() {
        Step::Next(id) => assert_eq!(id, root),
        other => panic!("unexpected step {:?}", other),
    }
    assert_eq!(raw_output(&p, run), Some(expected.clone()));
    assert_eq!(child_index(&p, root), 1);
    assert_eq!(p.current, Some(root));
    assert_eq!(p.workflow_state.current_node, root);

    match p.tick() {
        Step::Done(v) => assert_eq!(v, expected),
        other => panic!("unexpected step {:?}", other),
    }
    assert_eq!(raw_output(&p, root), Some(expected.clone()));
    assert_eq!(p.current, None);
    assert_eq!(p.status, Status::Running);
    assert_eq!(p.output(), expected);
}

#[test]
fn run_returns_the_effects_payload() {
    let (g, _) = root_with_run();
    let state = fresh_state(&g);
    let effects = EffectRegistry::new().with_executor(Arc::new(SimpleRunExecutor));
    let mut p = Processor::new(state, effects, g);
    assert_eq!(p.run(), object(&[("task", "run"), ("result", "ok")]));
    assert_eq!(p.current, None);
    assert_eq!(p.status, Status::Running);
}

#[test]
fn run_with_empty_registry_returns_error_payload() {
    let (g, _) = root_with_run();
    let state = fresh_state(&g);
    let effects: EffectRegistry<SimpleRunExecutor> = EffectRegistry::new();
    let mut p = Processor::new(state, effects, g);
    assert_eq!(p.run(), object(&[("error", "no executor for Run")]));
}

#[test]
fn unmatched_effect_never_fails_the_tick() {
    let kinds = [
        (EffectKind::CallHttp, "CallHttp"),
        (EffectKind::Wait, "Wait"),
        (EffectKind::Emit, "Emit"),
        (EffectKind::Listen, "Listen"),
        (EffectKind::CallGrpc, "CallGrpc"),
        (EffectKind::CallAsyncApi, "CallAsyncApi"),
        (EffectKind::CallOpenApi, "CallOpenApi"),
    ];
    for (kind, label) in kinds {
        let mut g = NodeGraph::new_root("root");
        let root = g.root();
        let node = g.add_node(NodeKind::Effect(kind), "call", NodePosition::root().add_name("call"));
        g.add_child(root, node);
        let state = fresh_state(&g);
        let effects = EffectRegistry::new().with_executor(Arc::new(SimpleRunExecutor));
        let mut p = Processor::new(state, effects, g);
        assert!(matches!(p.tick(), Step::Next(id) if id == node));
        assert!(matches!(p.tick(), Step::Next(id) if id == root));
        let message = format!("no executor for {}", label);
        assert_eq!(raw_output(&p, node), Some(object(&[("error", message.as_str())])));
    }
}

#[test]
fn an_effect_at_the_root_reports_done() {
    let mut g = NodeGraph::new_root("root");
    let lonely = g.add_node(NodeKind::Effect(EffectKind::Wait), "wait", NodePosition::root());
    let mut state = fresh_state(&g);
    state.current_node = lonely;
    let effects: EffectRegistry<SimpleRunExecutor> = EffectRegistry::new();
    let mut p = Processor::new(state, effects, g);
    match p.tick() {
        Step::Done(v) => assert_eq!(v, Value::Null),
        other => panic!("unexpected step {:?}", other),
    }
    assert_eq!(raw_output(&p, lonely), Some(object(&[("error", "no executor for Wait")])));
    assert_eq!(p.current, None);
}

#[test]
fn failure_of_an_executor_is_absorbed() {
    let (g, run) = root_with_run();
    let state = fresh_state(&g);
    let effects = EffectRegistry::new().with_executor(Arc::new(Failing));
    let mut p = Processor::new(state, effects, g);
    assert_eq!(p.run(), object(&[("error", "boom")]));
    assert_eq!(raw_output(&p, run), Some(object(&[("error", "boom")])));
}

#[test]
fn absorb_keeps_payloads_and_wraps_failures() {
    assert_eq!(absorb(Ok(Value::Bool(true))), Value::Bool(true));
    assert_eq!(
        absorb(Err(WorkflowError::Task { message: "no".to_string() })),
        object(&[("error", "no")])
    );
    assert_eq!(
        absorb(Err(WorkflowError::Unexpected("odd".to_string()))),
        object(&[("error", "odd")])
    );
}

#[test]
fn every_node_is_finished_once_in_document_order() {
    let (g, _) = nested();
    let state = fresh_state(&g);
    let effects = EffectRegistry::new().with_executor(Arc::new(SimpleRunExecutor));
    let mut p = Processor::new(state, effects, g).with_observer(Recorder::default());
    let out = p.run();
    assert_eq!(out, object(&[("task", "d"), ("result", "ok")]));
    let completed: Vec<&str> = p
        .observer
        .events
        .iter()
        .filter_map(|e| e.strip_prefix("completed "))
        .collect();
    assert_eq!(completed, vec!["a", "b", "c", "seq", "d", "root"]);
    let started: Vec<&str> = p
        .observer
        .events
        .iter()
        .filter_map(|e| e.strip_prefix("started "))
        .collect();
    assert_eq!(started, vec!["a", "seq", "b", "c", "d"]);
    assert_eq!(p.observer.events.first().map(|s| s.as_str()), Some("workflow started"));
    assert_eq!(p.observer.events.iter().filter(|e| *e == "workflow started").count(), 1);
    assert_eq!(p.observer.events.iter().filter(|e| *e == "workflow completed").count(), 0);
    assert_eq!(p.observer.events.iter().filter(|e| e.starts_with("faulted")).count(), 0);
}

#[test]
fn a_run_takes_one_tick_to_enter_each_child_and_one_to_finish_each_node() {
    let (g, _) = nested();
    let state = fresh_state(&g);
    let effects = EffectRegistry::new().with_executor(Arc::new(SimpleRunExecutor));
    let mut p = Processor::new(state, effects, g);
    let mut ticks = 0;
    loop {
        ticks += 1;
        if let Step::Done(_) = p.tick() {
            break;
        }
    }
    assert_eq!(ticks, 11);
}

#[test]
fn outputs_roll_up_to_the_root() {
    let (g, ids) = nested();
    let (root, seq, c, d) = (ids[0], ids[2], ids[4], ids[5]);
    let state = fresh_state(&g);
    let effects = EffectRegistry::new().with_executor(Arc::new(SimpleRunExecutor));
    let mut p = Processor::new(state, effects, g);
    p.run();
    assert_eq!(raw_output(&p, seq), raw_output(&p, c));
    assert_eq!(raw_output(&p, seq), Some(object(&[("task", "c"), ("result", "ok")])));
    assert_eq!(raw_output(&p, root), raw_output(&p, d));
    assert_eq!(raw_output(&p, root), Some(object(&[("task", "d"), ("result", "ok")])));
}

#[test]
fn a_flow_node_without_children_finishes_without_output() {
    let mut g = NodeGraph::new_root("root");
    let root = g.root();
    let empty = g.add_node(NodeKind::Flow(FlowKind::Do), "empty", NodePosition::root().add_name("empty"));
    g.add_child(root, empty);
    let state = fresh_state(&g);
    let effects: EffectRegistry<SimpleRunExecutor> = EffectRegistry::new();
    let mut p = Processor::new(state, effects, g);
    assert_eq!(p.run(), Value::Null);
    assert_eq!(raw_output(&p, empty), None);
    assert_eq!(raw_output(&p, root), None);
    assert_eq!(child_index(&p, root), 1);
}

#[test]
fn a_root_alone_is_done_at_the_first_tick() {
    let g = NodeGraph::new_root("root");
    let state = fresh_state(&g);
    let effects: EffectRegistry<SimpleRunExecutor> = EffectRegistry::new();
    let mut p = Processor::new(state, effects, g);
    assert!(matches!(p.tick(), Step::Done(Value::Null)));
    assert_eq!(p.current, None);
}

#[test]
fn cursors_end_at_the_child_count_and_never_move_back() {
    let (g, ids) = nested();
    let counts: Vec<usize> = ids.iter().map(|id| g.children(*id).len()).collect();
    let state = fresh_state(&g);
    let effects = EffectRegistry::new().with_executor(Arc::new(SimpleRunExecutor));
    let mut p = Processor::new(state, effects, g);
    let mut before: Vec<i32> = ids.iter().map(|id| child_index(&p, *id)).collect();
    loop {
        let step = p.tick();
        let after: Vec<i32> = ids.iter().map(|id| child_index(&p, *id)).collect();
        for (b, a) in before.iter().zip(after.iter()) {
            assert!(b <= a);
        }
        before = after;
        if let Step::Done(_) = step {
            break;
        }
    }
    for (i, id) in ids.iter().enumerate() {
        assert_eq!(child_index(&p, *id) as usize, counts[i]);
    }
}

#[test]
fn ticking_after_done_changes_nothing() {
    let (g, ids) = nested();
    let state = fresh_state(&g);
    let effects = EffectRegistry::new().with_executor(Arc::new(SimpleRunExecutor));
    let mut p = Processor::new(state, effects, g).with_observer(Recorder::default());
    let out = p.run();
    let indices: Vec<i32> = ids.iter().map(|id| child_index(&p, *id)).collect();
    let outputs: Vec<Option<Value>> = ids.iter().map(|id| raw_output(&p, *id)).collect();
    let entries = p.workflow_state.current_states.0.len();
    for _ in 0..3 {
        match p.tick() {
            Step::Done(v) => assert_eq!(v, out),
            other => panic!("unexpected step {:?}", other),
        }
        assert_eq!(p.current, None);
        assert_eq!(p.status, Status::Completed);
        assert_eq!(ids.iter().map(|id| child_index(&p, *id)).collect::<Vec<_>>(), indices);
        assert_eq!(ids.iter().map(|id| raw_output(&p, *id)).collect::<Vec<_>>(), outputs);
        assert_eq!(p.workflow_state.current_states.0.len(), entries);
    }
    assert_eq!(p.observer.events.iter().filter(|e| *e == "workflow completed").count(), 3);
    assert_eq!(p.run(), out);
}

#[test]
fn a_walk_resumes_from_its_state() {
    let (g, ids) = nested();
    let state = fresh_state(&g);
    let effects = EffectRegistry::new().with_executor(Arc::new(SimpleRunExecutor));
    let mut p = Processor::new(state, effects, g.clone());
    for _ in 0..4 {
        p.tick();
    }
    assert_eq!(p.current, Some(ids[3]));
    let saved = p.workflow_state.duplicate(WorkflowId::random());
    assert_eq!(saved.current_node, ids[3]);
    let effects = EffectRegistry::new().with_executor(Arc::new(SimpleRunExecutor));
    let mut q = Processor::new(saved, effects, g).with_observer(Recorder::default());
    assert_eq!(q.run(), object(&[("task", "d"), ("result", "ok")]));
    let completed: Vec<&str> = q
        .observer
        .events
        .iter()
        .filter_map(|e| e.strip_prefix("completed "))
        .collect();
    assert_eq!(completed, vec!["b", "c", "seq", "d", "root"]);
}

#[test]
fn advance_takes_the_payload_that_is_handed_in() {
    let (g, run) = root_with_run();
    let root = g.root();
    let state = fresh_state(&g);
    let effects: EffectRegistry<SimpleRunExecutor> = EffectRegistry::new();
    let mut p = Processor::new(state, effects, g);
    assert!(p.pending_effect().is_none());
    let now = time::OffsetDateTime::UNIX_EPOCH;
    assert!(matches!(p.advance(now, None), Step::Next(id) if id == run));
    let ctx = p.pending_effect().expect("an effect is pending");
    assert_eq!(ctx.id, run);
    assert_eq!(ctx.name, "run");
    assert_eq!(ctx.kind, EffectKind::Run);
    assert!(matches!(p.advance(now, Some(Value::from(7))), Step::Next(id) if id == root));
    assert_eq!(raw_output(&p, run), Some(Value::from(7)));
    let started = p.workflow_state.current_states.0.get(&run.0).and_then(|s| s.started_at);
    assert_eq!(started, Some(now));
    assert!(matches!(p.advance(now, None), Step::Done(v) if v == Value::from(7)));
}

#[test]
fn output_is_null_before_the_root_has_one() {
    let (g, _) = root_with_run();
    let state = fresh_state(&g);
    let effects: EffectRegistry<SimpleRunExecutor> = EffectRegistry::new();
    let p = Processor::new(state, effects, g);
    assert_eq!(p.output(), Value::Null);
    assert_eq!(p.workflow_name(), &WorkflowName("demo".to_string()));
    assert_eq!(p.workflow_version(), &WorkflowVersion("1.0.0".to_string()));
}

#[test]
fn an_effect_that_was_begun_before_runs_again_without_a_start() {
    let (g, run) = root_with_run();
    let root = g.root();
    let mut state = fresh_state(&g);
    let begun = time::OffsetDateTime::UNIX_EPOCH;
    let mut record = state.current_states.take(run);
    record.started_at = Some(begun);
    record.raw_output = Some(Value::from("stale"));
    state.current_states.put(run, record);
    state.current_node = run;
    let effects = EffectRegistry::new().with_executor(Arc::new(SimpleRunExecutor));
    let mut p = Processor::new(state, effects, g).with_observer(Recorder::default());
    assert!(matches!(p.tick(), Step::Next(id) if id == root));
    assert_eq!(raw_output(&p, run), Some(object(&[("task", "run"), ("result", "ok")])));
    let started = p.workflow_state.current_states.0.get(&run.0).and_then(|s| s.started_at);
    assert_eq!(started, Some(begun));
    assert_eq!(p.observer.events, vec!["workflow started", "completed run"]);
    assert_eq!(child_index(&p, root), 1);
}

#[test]
fn a_cursor_below_zero_counts_as_spent() {
    let (g, run) = root_with_run();
    let root = g.root();
    let mut state = fresh_state(&g);
    let mut record = state.current_states.take(root);
    record.child_index = -1;
    state.current_states.put(root, record);
    let effects = EffectRegistry::new().with_executor(Arc::new(SimpleRunExecutor));
    let mut p = Processor::new(state, effects, g);
    assert!(matches!(p.tick(), Step::Done(Value::Null)));
    assert_eq!(raw_output(&p, run), None);
    assert_eq!(p.current, None);
}

#[test]
fn a_node_keeps_its_output_where_its_last_child_has_none() {
    let mut g = NodeGraph::new_root("root");
    let root = g.root();
    let empty = g.add_node(NodeKind::Flow(FlowKind::Do), "empty", NodePosition::root().add_name("empty"));
    g.add_child(root, empty);
    let mut state = fresh_state(&g);
    let mut record = state.current_states.take(root);
    record.raw_output = Some(Value::from("kept"));
    state.current_states.put(root, record);
    let effects: EffectRegistry<SimpleRunExecutor> = EffectRegistry::new();
    let mut p = Processor::new(state, effects, g);
    assert_eq!(p.run(), Value::from("kept"));
    assert_eq!(raw_output(&p, empty), None);
}

#[test]
fn can_tick_tells_a_current_node_outside_the_graph() {
    let (g, _) = root_with_run();
    let mut state = fresh_state(&g);
    let effects: EffectRegistry<SimpleRunExecutor> = EffectRegistry::new();
    assert!(Processor::new(fresh_state(&g), EffectRegistry::<SimpleRunExecutor>::new(), g.clone()).can_tick());
    state.current_node = NodeId(9);
    let p = Processor::new(state, effects, g.clone());
    assert!(!p.can_tick());
    let mut state = fresh_state(&g);
    let mut record = state.current_states.take(g.root());
    record.child_index = i32::MAX;
    state.current_states.put(g.root(), record);
    state.current_node = NodeId(1);
    let p = Processor::new(state, EffectRegistry::<SimpleRunExecutor>::new(), g);
    assert!(!p.can_tick());
}
