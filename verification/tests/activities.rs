use std::sync::Arc;

use serde_json::Value;
use tideloom::activities::executor::{EffectContext, EffectExecutor, SimpleRunExecutor};
use tideloom::activities::registry::{no_executor, EffectRegistry};
use tideloom::errors::WorkflowError;
use tideloom::nodes::id::NodeId;
use tideloom::nodes::kind::EffectKind;
use tideloom::payload::{error_payload, null_payload};

struct Tagged {
    tag: &'static str,
    only: Option<EffectKind>,
}

impl EffectExecutor for Tagged {
    fn can_execute(&self, kind: &EffectKind) -> bool {
        match self.only {
            Some(k) => k == *kind,
            None => true,
        }
    }

    fn execute(&self, _ctx: &EffectContext) -> Result<Value, WorkflowError> {
        Ok(Value::String(self.tag.to_string()))
    }
}

fn ctx(kind: EffectKind) -> EffectContext {
    EffectContext { id: NodeId(1), name: "node".to_string(), kind }
}

#[test]
fn simple_run_executor_runs_only_run() {
    let e = SimpleRunExecutor;
    assert!(e.can_execute(&EffectKind::Run));
    assert!(!e.can_execute(&EffectKind::CallHttp));
    assert!(!e.can_execute(&EffectKind::Wait));
    let mut m = serde_json::Map::new();
    m.insert("task".to_string(), Value::String("node".to_string()));
    m.insert("result".to_string(), Value::String("ok".to_string()));
    assert_eq!(e.execute(&ctx(EffectKind::Run)).ok(), Some(Value::Object(m)));
}

#[test]
fn registry_takes_the_first_executor_that_accepts() {
    let mut r = EffectRegistry::new()
        .with_executor(Arc::new(Tagged { tag: "wait", only: Some(EffectKind::Wait) }))
        .with_executor(Arc::new(Tagged { tag: "any", only: None }));
    r.register(Arc::new(Tagged { tag: "late", only: Some(EffectKind::Emit) }));
    assert_eq!(r.select(&EffectKind::Wait), Some(0));
    assert_eq!(r.select(&EffectKind::Emit), Some(1));
    assert_eq!(r.execute(&ctx(EffectKind::Wait)).ok(), Some(Value::String("wait".to_string())));
    assert_eq!(r.execute(&ctx(EffectKind::Emit)).ok(), Some(Value::String("any".to_string())));
}

#[test]
fn registry_without_a_match_names_the_kind() {
    let r = EffectRegistry::new().with_executor(Arc::new(SimpleRunExecutor));
    assert_eq!(r.select(&EffectKind::Listen), None);
    match r.execute(&ctx(EffectKind::Listen)) {
        Err(WorkflowError::Task { message }) => assert_eq!(message, "no executor for Listen"),
        other => panic!("unexpected result {:?}", other),
    }
    let empty: EffectRegistry<SimpleRunExecutor> = EffectRegistry::new();
    assert_eq!(empty.select(&EffectKind::Run), None);
    assert!(matches!(
        empty.execute(&ctx(EffectKind::Run)),
        Err(WorkflowError::Task { message }) if message == "no executor for Run"
    ));
    assert!(matches!(
        no_executor(&EffectKind::CallGrpc),
        WorkflowError::Task { message } if message == "no executor for CallGrpc"
    ));
}

#[test]
fn errors_render_with_their_variant() {
    let task = WorkflowError::Task { message: "m".to_string() };
    assert_eq!(task.to_string(), "task error: m");
    assert_eq!(task.message(), "m");
    let odd = WorkflowError::Unexpected("u".to_string());
    assert_eq!(odd.to_string(), "unexpected: u");
    assert_eq!(odd.message(), "u");
}

#[test]
fn payload_helpers() {
    assert_eq!(null_payload(), Value::Null);
    let mut m = serde_json::Map::new();
    m.insert("error".to_string(), Value::String("bad \"thing\"".to_string()));
    assert_eq!(error_payload("bad \"thing\""), Value::Object(m));
    assert_eq!(error_payload("x").to_string(), "{\"error\":\"x\"}");
}

#[test]
fn effect_context_clones() {
    let c = ctx(EffectKind::Emit);
    let d = c.clone();
    assert_eq!(d.id, NodeId(1));
    assert_eq!(d.name, "node");
    assert_eq!(d.kind, EffectKind::Emit);
}
