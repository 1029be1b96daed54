use vstd::prelude::*;
use crate::errors::WorkflowError;
use crate::nodes::id::NodeId;
use crate::nodes::kind::EffectKind;
use crate::payload::Json;

verus! {

/// What an executor is told of the effect node it is asked to perform.
#[derive(Debug)]
pub struct EffectContext {
    pub id: NodeId,
    pub name: String,
    pub kind: EffectKind,
}

impl Clone for EffectContext {
    fn clone(&self) -> (r: Self)
        ensures
            r == *self,
    {
        EffectContext { id: self.id, name: self.name.clone(), kind: self.kind }
    }
}

/// Code that performs the effect of a node.
///
/// The two predicates exist for contracts. `answers` says which answers the capability
/// test may give for a kind, and `yields` which results `execute` may give for a
/// context. An implementation that states neither promises nothing: every answer and
/// every result is then possible. One that states them is held to them, and the engine's
/// contracts speak through them.
pub trait EffectExecutor {
    /// True when `can_execute` may answer `answer` for `kind`.
    open spec fn answers(&self, kind: EffectKind, answer: bool) -> bool {
        true
    }

    /// True for the results that `execute` may give for `ctx`.
    open spec fn yields(&self, ctx: EffectContext, result: Result<serde_json::Value, WorkflowError>) -> bool {
        true
    }

    /// Tells whether this executor performs effects of the kind.
    fn can_execute(&self, kind: &EffectKind) -> (b: bool)
        ensures
            self.answers(*kind, b),
    ;

    /// Performs the effect and gives its payload, or fails.
    fn execute(&self, ctx: &EffectContext) -> (result: Result<serde_json::Value, WorkflowError>)
        ensures
            self.yields(*ctx, result),
    ;
}

/// The document `{"task": name, "result": "ok"}`.
pub open spec fn run_report(name: Seq<char>) -> Json {
    Json::Object(
        crate::payload::no_members().insert("task"@, Json::Text(name)).insert(
            "result"@,
            Json::Text("ok"@),
        ),
    )
}

/// An executor for `Run` nodes that does nothing and reports success.
#[derive(Debug, Clone, Copy)]
pub struct SimpleRunExecutor;

impl EffectExecutor for SimpleRunExecutor {
    open spec fn answers(&self, kind: EffectKind, answer: bool) -> bool {
        answer == (kind is Run)
    }

    open spec fn yields(&self, ctx: EffectContext, result: Result<serde_json::Value, WorkflowError>) -> bool {
        result matches Ok(v) && crate::payload::json_view(v) == run_report(ctx.name@)
    }

    fn can_execute(&self, kind: &EffectKind) -> (b: bool) {
        match kind {
            EffectKind::Run => true,
            _ => false,
        }
    }

    fn execute(&self, ctx: &EffectContext) -> (result: Result<serde_json::Value, WorkflowError>) {
        let mut m = serde_json::Map::new();
        m.insert("task".to_owned(), serde_json::Value::from(ctx.name.clone()));
        m.insert("result".to_owned(), serde_json::Value::from("ok".to_owned()));
        Ok(serde_json::Value::from(m))
    }
}

} // verus!
