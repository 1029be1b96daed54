use serde_json::Value;
use tideloom::engine::node_states::NodeStates;
use tideloom::nodes::graph::NodeGraph;
use tideloom::nodes::id::NodeId;
use tideloom::nodes::instance::{NodeInstance, SimpleInstance};
use tideloom::nodes::kind::{EffectKind, FlowKind, NodeKind};
use tideloom::nodes::position::NodePosition;
use tideloom::text::decimal_string;
use tideloom::types::{NodeState, WorkflowId, WorkflowName, WorkflowState, WorkflowVersion};

struct Dormant {
    inner: SimpleInstance,
}

impl NodeInstance for Dormant {
    fn id(&self) -> NodeId {
        self.inner.id
    }

    fn name(&self) -> &str {
        &self.inner.name
    }

    fn position(&self) -> &NodePosition {
        &self.inner.position
    }

    fn state(&self) -> &NodeState {
        &self.inner.state
    }

    fn state_mut(&mut self) -> &mut NodeState {
        &mut self.inner.state
    }

    fn may_decline(&self) -> bool {
        true
    }

    fn should_start(&self) -> bool {
        false
    }
}

#[test]
fn node_id_is_its_number() {
    assert_eq!(NodeId(7).index(), 7);
    assert_eq!(NodeId::new(9).as_u32(), 9);
    assert_eq!(NodeId::from(5usize), NodeId(5));
    assert_eq!(NodeId::new(3), NodeId(3));
}

#[test]
fn node_id_from_usize_keeps_the_low_bits() {
    let big = (1u64 << 32) + 5;
    if let Ok(v) = usize::try_from(big) {
        assert_eq!(NodeId::from(v), NodeId(5));
    }
    assert_eq!(NodeId::from(u32::MAX as usize), NodeId(u32::MAX));
}

#[test]
fn kinds_tell_flow_from_effect() {
    let flow = NodeKind::Flow(FlowKind::Do);
    let effect = NodeKind::Effect(EffectKind::Emit);
    assert!(flow.is_flow());
    assert!(!flow.is_effect());
    assert!(effect.is_effect());
    assert!(!effect.is_flow());
    assert_eq!(flow.as_flow(), Some(&FlowKind::Do));
    assert_eq!(flow.as_effect(), None);
    assert_eq!(effect.as_effect(), Some(&EffectKind::Emit));
    assert_eq!(effect.as_flow(), None);
}

#[test]
fn effect_kinds_have_their_names() {
    assert_eq!(EffectKind::CallHttp.label(), "CallHttp");
    assert_eq!(EffectKind::Run.label(), "Run");
    assert_eq!(EffectKind::Wait.label(), "Wait");
    assert_eq!(EffectKind::Emit.label(), "Emit");
    assert_eq!(EffectKind::Listen.label(), "Listen");
    assert_eq!(EffectKind::CallGrpc.label(), "CallGrpc");
    assert_eq!(EffectKind::CallAsyncApi.label(), "CallAsyncApi");
    assert_eq!(EffectKind::CallOpenApi.label(), "CallOpenApi");
}

#[test]
fn position_renders_as_pointer() {
    assert_eq!(NodePosition::root().as_pointer(), "");
    let p = NodePosition::root().add_name("a").add_name("b").add_index(0);
    assert_eq!(p.as_pointer(), "/a/b/0");
    assert_eq!(NodePosition::root().add_index(12345).as_pointer(), "/12345");
    assert_eq!(NodePosition::root().add_token("x/y").as_pointer(), "/x/y");
    assert_eq!(NodePosition::root().add_name("").as_pointer(), "/");
}

#[test]
fn position_parent_drops_the_last_segment() {
    assert_eq!(NodePosition::root().parent(), None);
    let p = NodePosition::root().add_name("a").add_index(3);
    assert_eq!(p.parent(), Some(NodePosition::root().add_name("a")));
    assert_eq!(p.parent().and_then(|q| q.parent()), Some(NodePosition::root()));
    assert_eq!(p.clone(), p);
}

#[test]
fn decimal_numerals() {
    assert_eq!(decimal_string(0), "0");
    assert_eq!(decimal_string(7), "7");
    assert_eq!(decimal_string(10), "10");
    assert_eq!(decimal_string(1234567890), "1234567890");
    assert_eq!(decimal_string(usize::MAX), usize::MAX.to_string());
}

#[test]
fn graph_keeps_nodes_and_edges() {
    let mut g = NodeGraph::new_root("wf");
    let root = g.root();
    assert_eq!(root, NodeId(0));
    assert_eq!(g.len(), 1);
    assert!(matches!(g.kind(root), NodeKind::Flow(FlowKind::Root)));
    assert_eq!(g.name(root), "wf");
    assert_eq!(g.position(root), &NodePosition::root());
    assert!(g.children(root).is_empty());
    assert_eq!(g.parent(root), None);

    let a = g.add_node(NodeKind::Effect(EffectKind::CallHttp), "a", NodePosition::root().add_index(0));
    let b = g.add_node(NodeKind::Flow(FlowKind::Try), "b", NodePosition::root().add_index(1));
    assert_eq!(a, NodeId(1));
    assert_eq!(b, NodeId(2));
    assert_eq!(g.len(), 3);
    assert_eq!(g.parent(a), None);
    g.add_child(root, a);
    g.add_child(root, b);
    assert_eq!(g.children(root), &[a, b]);
    assert_eq!(g.parent(a), Some(root));
    assert_eq!(g.parent(b), Some(root));
    assert!(g.children(a).is_empty());
    assert!(matches!(g.kind(a), NodeKind::Effect(EffectKind::CallHttp)));
    assert!(matches!(g.kind(b), NodeKind::Flow(FlowKind::Try)));
    assert_eq!(g.name(b), "b");
    assert_eq!(g.position(b).as_pointer(), "/1");
    assert_eq!(g.root(), root);
}

#[test]
fn node_state_default_is_blank() {
    let s = NodeState::default();
    assert_eq!(s.started_at, None);
    assert_eq!(s.raw_input, None);
    assert_eq!(s.raw_output, None);
    assert_eq!(s.child_index, 0);
    assert_eq!(s.context, Value::Null);
    let mut t = s.clone();
    t.child_index = 4;
    t.raw_output = Some(Value::Bool(false));
    let u = t.clone();
    assert_eq!(u.child_index, 4);
    assert_eq!(u.raw_output, Some(Value::Bool(false)));
}

#[test]
fn node_states_begin_with_the_root() {
    let states = NodeStates::new_for(NodeId(0), Value::String("in".to_string()));
    assert_eq!(states.0.len(), 1);
    let root = states.0.get(&0).expect("the root has a record");
    assert!(root.started_at.is_some());
    assert_eq!(root.raw_input, Some(Value::String("in".to_string())));
    assert_eq!(root.raw_output, None);
    assert_eq!(root.child_index, 0);
    assert_eq!(root.context, Value::Null);

    let at = time::OffsetDateTime::UNIX_EPOCH;
    let states = NodeStates::new_at(NodeId(3), Value::Null, at);
    assert_eq!(states.0.get(&3).and_then(|s| s.started_at), Some(at));
    assert_eq!(states.child_index(NodeId(3)), 0);
    assert_eq!(states.child_index(NodeId(9)), 0);
    assert_eq!(states.output(NodeId(3)), None);
}

#[test]
fn node_states_take_and_put() {
    let mut states = NodeStates::new_for(NodeId(0), Value::Null);
    let mut s = states.take(NodeId(5));
    assert_eq!(s.child_index, 0);
    assert_eq!(states.0.len(), 1);
    s.child_index = 2;
    s.raw_output = Some(Value::Bool(true));
    states.put(NodeId(5), s);
    assert_eq!(states.child_index(NodeId(5)), 2);
    assert_eq!(states.output(NodeId(5)), Some(Value::Bool(true)));
    let taken = states.take(NodeId(5));
    assert_eq!(taken.child_index, 2);
    assert_eq!(states.0.len(), 1);
    assert_eq!(states.clone().0.len(), 1);
}

#[test]
fn duplicate_keeps_progress_under_a_new_identity() {
    let mut states = NodeStates::new_for(NodeId(0), Value::Null);
    let mut s = states.take(NodeId(0));
    s.child_index = 1;
    states.put(NodeId(0), s);
    let state = WorkflowState {
        workflow_id: WorkflowId::random(),
        workflow_name: WorkflowName("n".to_string()),
        workflow_version: WorkflowVersion("v".to_string()),
        current_node: NodeId(2),
        current_states: states,
    };
    let fresh = WorkflowId::random();
    let copy = state.duplicate(fresh);
    assert_eq!(copy.workflow_id.0, fresh.0);
    assert_ne!(copy.workflow_id.0, state.workflow_id.0);
    assert_eq!(copy.workflow_name, state.workflow_name);
    assert_eq!(copy.workflow_version, state.workflow_version);
    assert_eq!(copy.current_node, NodeId(2));
    assert_eq!(copy.current_states.0.len(), 1);
    assert_eq!(copy.current_states.child_index(NodeId(0)), 1);
}

#[test]
fn simple_instance_begins_when_it_is_made() {
    let mut inst = SimpleInstance::new(NodeId(4), "n", NodePosition::root().add_name("n"));
    assert_eq!(inst.id(), NodeId(4));
    assert_eq!(inst.name(), "n");
    assert_eq!(inst.position().as_pointer(), "/n");
    assert!(inst.state().started_at.is_some());
    assert_eq!(inst.state().child_index, 0);
    assert!(inst.should_start());
    inst.state_mut().child_index = 3;
    assert_eq!(inst.state.child_index, 3);
    let at = time::OffsetDateTime::UNIX_EPOCH;
    let inst = SimpleInstance::new_at(NodeId(1), "m", NodePosition::root(), at);
    assert_eq!(inst.state.started_at, Some(at));
}

#[test]
fn an_instance_starts_unless_its_kind_may_decline() {
    let at = time::OffsetDateTime::UNIX_EPOCH;
    let plain = SimpleInstance::new_at(NodeId(2), "p", NodePosition::root(), at);
    assert!(plain.should_start());
    let dormant = Dormant { inner: SimpleInstance::new_at(NodeId(3), "d", NodePosition::root(), at) };
    assert!(!dormant.should_start());
    assert_eq!(dormant.id(), NodeId(3));
    assert_eq!(dormant.name(), "d");
}
