use serde_json::Value;
use tideloom::engine::processor::Step;
use tideloom::errors::WorkflowError;
use tideloom::messaging::Message;
use tideloom::nodes::id::NodeId;
use tideloom::outbox::{Backoff, OutboxItem, OutboxItemKind};

#[test]
fn outbox_items_keep_their_reason() {
    let until = time::OffsetDateTime::UNIX_EPOCH + time::Duration::seconds(90);
    let wait = OutboxItem { kind: OutboxItemKind::Wait { until }, metadata: Value::Null };
    match wait.clone().kind {
        OutboxItemKind::Wait { until: u } => assert_eq!(u, until),
        other => panic!("unexpected kind {:?}", other),
    }
    let retry = OutboxItem {
        kind: OutboxItemKind::Retry { backoff: Backoff { attempt: 2, delay_ms: 500 } },
        metadata: Value::Bool(true),
    };
    match retry.clone().kind {
        OutboxItemKind::Retry { backoff } => assert_eq!(backoff, Backoff { attempt: 2, delay_ms: 500 }),
        other => panic!("unexpected kind {:?}", other),
    }
    assert_eq!(retry.metadata, Value::Bool(true));
    let schedule = OutboxItemKind::Schedule { cron: "0 * * * *".to_string() };
    assert!(matches!(schedule.clone(), OutboxItemKind::Schedule { cron } if cron == "0 * * * *"));
}

#[test]
fn messages_and_steps_carry_their_payload() {
    let m = Message { topic: "t".to_string(), payload: Value::from(1) };
    let copy = m.clone();
    assert_eq!(copy.topic, "t");
    assert_eq!(copy.payload, Value::from(1));
    assert!(matches!(Step::Emit(m), Step::Emit(Message { topic, .. }) if topic == "t"));
    assert!(matches!(Step::Next(NodeId(3)), Step::Next(NodeId(3))));
    assert!(matches!(Step::Retry(Backoff { attempt: 1, delay_ms: 10 }), Step::Retry(b) if b.delay_ms == 10));
    assert!(matches!(
        Step::Fault(WorkflowError::Unexpected("x".to_string())),
        Step::Fault(WorkflowError::Unexpected(msg)) if msg == "x"
    ));
}
