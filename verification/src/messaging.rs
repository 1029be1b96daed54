//! Messages that a workflow sends out.

use vstd::prelude::*;

verus! {

/// A payload addressed to a topic.
#[derive(Debug, Clone)]
pub struct Message {
    pub topic: String,
    pub payload: serde_json::Value,
}

} // verus!
