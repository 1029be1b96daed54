use vstd::prelude::*;

verus! {

/// The control-flow node kinds.
#[derive(Debug, Clone, Copy, PartialEq, Eq, Structural)]
pub enum FlowKind {
    /// The root of a workflow.
    Root,
    /// A sequence of tasks.
    Do,
    /// A loop over a collection.
    For,
    /// A block with error handling.
    Try,
    /// Branches that run side by side.
    Fork,
    /// Raises an error.
    Raise,
    /// Sets a variable.
    SetVar,
    /// A conditional branch.
    Switch,
}

/// The side-effecting node kinds.
#[derive(Debug, Clone, Copy, PartialEq, Eq, Structural)]
pub enum EffectKind {
    /// An HTTP call.
    CallHttp,
    /// Runs a task.
    Run,
    /// Waits for a time.
    Wait,
    /// Emits an event.
    Emit,
    /// Listens for an event.
    Listen,
    /// A gRPC call.
    CallGrpc,
    /// An AsyncAPI call.
    CallAsyncApi,
    /// An OpenAPI call.
    CallOpenApi,
}

/// What a node is: control flow, or an effect.
#[derive(Debug, Clone, Copy, PartialEq, Eq, Structural)]
pub enum NodeKind {
    Flow(FlowKind),
    Effect(EffectKind),
}

impl EffectKind {
    /// The kind's name as text.
    pub open spec fn spec_label(self) -> Seq<char> {
        match self {
            EffectKind::CallHttp => "CallHttp"@,
            EffectKind::Run => "Run"@,
            EffectKind::Wait => "Wait"@,
            EffectKind::Emit => "Emit"@,
            EffectKind::Listen => "Listen"@,
            EffectKind::CallGrpc => "CallGrpc"@,
            EffectKind::CallAsyncApi => "CallAsyncApi"@,
            EffectKind::CallOpenApi => "CallOpenApi"@,
        }
    }

    /// The kind's name, as it is written in messages.
    pub fn label(&self) -> (s: &'static str)
        ensures
            s@ == self.spec_label(),
    {
        match self {
            EffectKind::CallHttp => "CallHttp",
            EffectKind::Run => "Run",
            EffectKind::Wait => "Wait",
            EffectKind::Emit => "Emit",
            EffectKind::Listen => "Listen",
            EffectKind::CallGrpc => "CallGrpc",
            EffectKind::CallAsyncApi => "CallAsyncApi",
            EffectKind::CallOpenApi => "CallOpenApi",
        }
    }
}

impl NodeKind {
    /// True for an effect node.
    pub fn is_effect(&self) -> (b: bool)
        ensures
            b == (*self is Effect),
    {
        match self {
            NodeKind::Effect(_) => true,
            NodeKind::Flow(_) => false,
        }
    }

    /// True for a control-flow node.
    pub fn is_flow(&self) -> (b: bool)
        ensures
            b == (*self is Flow),
    {
        match self {
            NodeKind::Flow(_) => true,
            NodeKind::Effect(_) => false,
        }
    }

    /// The effect kind of an effect node.
    pub fn as_effect(&self) -> (r: Option<&EffectKind>)
        ensures
            match *self {
                NodeKind::Effect(k) => r == Some(&k),
                NodeKind::Flow(_) => r is None,
            },
    {
        match self {
            NodeKind::Effect(kind) => Some(kind),
            NodeKind::Flow(_) => None,
        }
    }

    /// The flow kind of a control-flow node.
    pub fn as_flow(&self) -> (r: Option<&FlowKind>)
        ensures
            match *self {
                NodeKind::Flow(k) => r == Some(&k),
                NodeKind::Effect(_) => r is None,
            },
    {
        match self {
            NodeKind::Flow(kind) => Some(kind),
            NodeKind::Effect(_) => None,
        }
    }
}

} // verus!
