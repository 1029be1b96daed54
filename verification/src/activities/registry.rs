use vstd::prelude::*;
use vstd::string::StringExecFns;
use std::sync::Arc;
use super::executor::{EffectContext, EffectExecutor};
use crate::errors::WorkflowError;
use crate::nodes::kind::EffectKind;

verus! {

/// The message of the failure that is reported when no executor performs a kind.
pub open spec fn no_executor_message(kind: EffectKind) -> Seq<char> {
    "no executor for "@ + kind.spec_label()
}

/// True when the scan may stop at `i`: the executor there may accept `kind`, and every
/// executor before it may refuse it.
pub open spec fn is_first_match<E: EffectExecutor>(executors: Seq<Arc<E>>, kind: EffectKind, i: int) -> bool {
    &&& 0 <= i < executors.len()
    &&& executors[i].answers(kind, true)
    &&& forall|j: int| 0 <= j < i ==> (#[trigger] executors[j]).answers(kind, false)
}

/// True when the scan may find nothing: every executor may refuse `kind`.
pub open spec fn none_match<E: EffectExecutor>(executors: Seq<Arc<E>>, kind: EffectKind) -> bool {
    forall|j: int| 0 <= j < executors.len() ==> (#[trigger] executors[j]).answers(kind, false)
}

/// True when no executor accepts `kind`, whatever it is asked.
pub open spec fn unmatched<E: EffectExecutor>(executors: Seq<Arc<E>>, kind: EffectKind) -> bool {
    forall|j: int| 0 <= j < executors.len() ==> !(#[trigger] executors[j]).answers(kind, true)
}

/// True for the results that the registry may give for `ctx`: one that the first
/// executor accepting the kind yields, or, where none accepts it, the failure that names
/// the kind.
pub open spec fn dispatches<E: EffectExecutor>(
    executors: Seq<Arc<E>>,
    ctx: EffectContext,
    result: Result<serde_json::Value, WorkflowError>,
) -> bool {
    ||| exists|i: int| #[trigger] is_first_match(executors, ctx.kind, i) && executors[i].yields(ctx, result)
    ||| {
        &&& none_match(executors, ctx.kind)
        &&& result matches Err(WorkflowError::Task { message })
        &&& message@ == no_executor_message(ctx.kind)
    }
}

/// Where no executor accepts the kind, what the registry gives is the failure that names
/// the kind.
pub proof fn lemma_unmatched_gives_failure<E: EffectExecutor>(
    executors: Seq<Arc<E>>,
    ctx: EffectContext,
    result: Result<serde_json::Value, WorkflowError>,
)
    requires
        dispatches(executors, ctx, result),
        unmatched(executors, ctx.kind),
    ensures
        result matches Err(WorkflowError::Task { message }) && message@ == no_executor_message(ctx.kind),
{
}

/// An ordered list of executors. The first one that accepts a kind performs it, so the
/// order of registration breaks ties.
pub struct EffectRegistry<E: EffectExecutor> {
    executors: Vec<Arc<E>>,
}

impl<E: EffectExecutor> View for EffectRegistry<E> {
    type V = Seq<Arc<E>>;

    closed spec fn view(&self) -> Seq<Arc<E>> {
        self.executors@
    }
}

impl<E: EffectExecutor> EffectRegistry<E> {
    /// A registry without executors.
    pub fn new() -> (r: Self)
        ensures
            r@ == Seq::<Arc<E>>::empty(),
    {
        EffectRegistry { executors: Vec::new() }
    }

    /// The registry with `exec` added after the executors it holds.
    pub fn with_executor(self, exec: Arc<E>) -> (r: Self)
        ensures
            r@ == self@.push(exec),
    {
        let mut r = self;
        r.executors.push(exec);
        r
    }

    /// Adds `exec` after the executors that the registry holds.
    pub fn register(&mut self, exec: Arc<E>)
        ensures
            final(self)@ == old(self)@.push(exec),
    {
        self.executors.push(exec);
    }

    /// The place of the first executor that accepts `kind`, if there is one.
    pub fn select(&self, kind: &EffectKind) -> (r: Option<usize>)
        ensures
            match r {
                Some(i) => is_first_match(self@, *kind, i as int),
                None => none_match(self@, *kind),
            },
    {
        let mut i: usize = 0;
        while i < self.executors.len()
            invariant
                i <= self.executors.len(),
                forall|j: int| 0 <= j < i ==> (#[trigger] self.executors@[j]).answers(*kind, false),
            decreases self.executors.len() - i,
        {
            if self.executors[i].can_execute(kind) {
                return Some(i);
            }
            i = i + 1;
        }
        None
    }

    /// Hands the effect to the first executor that accepts its kind. Where none does, fails
    /// with a task error that names the kind.
    pub fn execute(&self, ctx: &EffectContext) -> (result: Result<serde_json::Value, WorkflowError>)
        ensures
            dispatches(self@, *ctx, result),
    {
        match self.select(&ctx.kind) {
            Some(i) => {
                let result = self.executors[i].execute(ctx);
                assert(is_first_match(self@, ctx.kind, i as int) && self@[i as int].yields(*ctx, result));
                result
            },
            None => Err(no_executor(&ctx.kind)),
        }
    }
}

/// The failure that is reported when no executor performs `kind`.
pub fn no_executor(kind: &EffectKind) -> (e: WorkflowError)
    ensures
        e matches WorkflowError::Task { message } && message@ == no_executor_message(*kind),
{
    WorkflowError::Task { message: String::from_str("no executor for ").concat(kind.label()) }
}

} // verus!
