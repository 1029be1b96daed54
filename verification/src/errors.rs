use vstd::prelude::*;
use vstd::string::StringExecFns;

verus! {

/// What can go wrong in a workflow.
#[derive(Debug, Clone)]
pub enum WorkflowError {
    /// An effect executor failed, or none matched.
    Task { message: String },
    /// An invariant of the engine was violated.
    Unexpected(String),
}

impl WorkflowError {
    /// The message that the error carries.
    pub open spec fn spec_message(&self) -> Seq<char> {
        match self {
            WorkflowError::Task { message } => message@,
            WorkflowError::Unexpected(message) => message@,
        }
    }

    /// The error as a line of text: the message after a prefix that tells the variant.
    pub open spec fn spec_to_string(&self) -> Seq<char> {
        match self {
            WorkflowError::Task { message } => "task error: "@ + message@,
            WorkflowError::Unexpected(message) => "unexpected: "@ + message@,
        }
    }

    /// The message that the error carries.
    pub fn message(&self) -> (s: &str)
        ensures
            s@ == self.spec_message(),
    {
        match self {
            WorkflowError::Task { message } => message.as_str(),
            WorkflowError::Unexpected(message) => message.as_str(),
        }
    }

    /// The error as a line of text: `task error: ` or `unexpected: `, then the message.
    pub fn to_string(&self) -> (s: String)
        ensures
            s@ == self.spec_to_string(),
    {
        match self {
            WorkflowError::Task { message } => {
                String::from_str("task error: ").concat(message.as_str())
            },
            WorkflowError::Unexpected(message) => {
                String::from_str("unexpected: ").concat(message.as_str())
            },
        }
    }
}

} // verus!
