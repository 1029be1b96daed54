//! Why and when a suspended workflow is to be looked at again.

use vstd::prelude::*;

verus! {

/// How often a step was tried, and how long to wait before the next try.
#[derive(Debug, Clone, Copy, PartialEq, Eq, Structural)]
pub struct Backoff {
    pub attempt: u32,
    pub delay_ms: u64,
}

/// The reason for which a workflow waits.
#[derive(Debug, Clone)]
pub enum OutboxItemKind {
    /// Until a point in time.
    Wait { until: time::OffsetDateTime },
    /// For the next try of a step that failed.
    Retry { backoff: Backoff },
    /// For the next time that a cron expression names.
    Schedule { cron: String },
}

/// A pending reason to revisit a workflow, with free-form metadata.
#[derive(Debug, Clone)]
pub struct OutboxItem {
    pub kind: OutboxItemKind,
    pub metadata: serde_json::Value,
}

} // verus!
