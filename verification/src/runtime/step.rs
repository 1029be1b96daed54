use vstd::prelude::*;
use vstd::std_specs::convert::FromSpecImpl;
use vstd::string::StringExecFns;

verus! {

/// Why a step failed, as a message.
#[derive(Debug)]
pub struct StepError {
    message: String,
}

impl View for StepError {
    type V = Seq<char>;

    closed spec fn view(&self) -> Seq<char> {
        self.message@
    }
}

impl StepError {
    /// A failure whose message is the text that `inner` displays as.
    pub fn new<E: std::fmt::Display>(inner: E) -> (e: Self)
        ensures
            vstd::string::to_string_from_display_ensures::<E>(&inner, e.spec_message()),
    {
        StepError { message: inner.to_string() }
    }

    /// The failure's message, as the string that holds it.
    pub closed spec fn spec_message(&self) -> String {
        self.message
    }

    /// A failure with the given message.
    pub fn message(message: &str) -> (e: Self)
        ensures
            e@ == message@,
    {
        StepError { message: message.to_owned() }
    }

    /// The failure's message.
    pub fn to_string(&self) -> (s: String)
        ensures
            s@ == self@,
    {
        self.message.clone()
    }
}

/// What a step gives: its value or its failure.
pub type StepResult<T> = Result<T, StepError>;

/// The data handed to a task.
#[derive(Debug)]
pub struct TaskInput {
    pub data: serde_json::Value,
}

/// The data that a task hands back.
#[derive(Debug)]
pub struct TaskOutput {
    pub data: serde_json::Value,
}

impl TaskInput {
    /// An input that holds `data`.
    pub fn new(data: serde_json::Value) -> (r: Self)
        ensures
            r.data == data,
    {
        TaskInput { data }
    }

    /// An input that holds `value`.
    pub fn from_value(value: serde_json::Value) -> (r: Self)
        ensures
            r.data == value,
    {
        Self::new(value)
    }
}

impl TaskOutput {
    /// An output that holds `data`.
    pub fn new(data: serde_json::Value) -> (r: Self)
        ensures
            r.data == data,
    {
        TaskOutput { data }
    }

    /// An output that holds `value`.
    pub fn from_value(value: serde_json::Value) -> (r: Self)
        ensures
            r.data == value,
    {
        Self::new(value)
    }

    /// The value that the output holds.
    pub fn into_value(self) -> (v: serde_json::Value)
        ensures
            v == self.data,
    {
        self.data
    }
}

impl Clone for TaskInput {
    fn clone(&self) -> (r: Self)
        ensures
            crate::payload::json_view(r.data) == crate::payload::json_view(self.data),
    {
        TaskInput { data: self.data.clone() }
    }
}

impl Clone for TaskOutput {
    fn clone(&self) -> (r: Self)
        ensures
            crate::payload::json_view(r.data) == crate::payload::json_view(self.data),
    {
        TaskOutput { data: self.data.clone() }
    }
}

impl From<serde_json::Value> for TaskInput {
    fn from(value: serde_json::Value) -> (r: Self) {
        TaskInput { data: value }
    }
}

impl FromSpecImpl<serde_json::Value> for TaskInput {
    open spec fn obeys_from_spec() -> bool {
        true
    }

    open spec fn from_spec(value: serde_json::Value) -> Self {
        TaskInput { data: value }
    }
}

impl From<serde_json::Value> for TaskOutput {
    fn from(value: serde_json::Value) -> (r: Self) {
        TaskOutput { data: value }
    }
}

impl FromSpecImpl<serde_json::Value> for TaskOutput {
    open spec fn obeys_from_spec() -> bool {
        true
    }

    open spec fn from_spec(value: serde_json::Value) -> Self {
        TaskOutput { data: value }
    }
}

impl From<TaskInput> for TaskOutput {
    fn from(input: TaskInput) -> (r: Self) {
        TaskOutput { data: input.data }
    }
}

impl FromSpecImpl<TaskInput> for TaskOutput {
    open spec fn obeys_from_spec() -> bool {
        true
    }

    open spec fn from_spec(input: TaskInput) -> Self {
        TaskOutput { data: input.data }
    }
}

impl From<TaskOutput> for TaskInput {
    fn from(output: TaskOutput) -> (r: Self) {
        TaskInput { data: output.data }
    }
}

impl FromSpecImpl<TaskOutput> for TaskInput {
    open spec fn obeys_from_spec() -> bool {
        true
    }

    open spec fn from_spec(output: TaskOutput) -> Self {
        TaskInput { data: output.data }
    }
}

/// How often a task may be tried.
#[derive(Debug, Clone, Copy, PartialEq, Eq, Structural)]
pub struct RetryPolicy {
    pub max_attempts: u32,
}

impl Default for RetryPolicy {
    /// One attempt, no retry.
    fn default() -> (r: Self)
        ensures
            r == (RetryPolicy { max_attempts: 1 }),
    {
        RetryPolicy { max_attempts: 1 }
    }
}

/// Where a step stands in its life.
#[derive(Debug, Clone, Copy, PartialEq, Eq, Structural)]
pub enum StepStatus {
    Pending,
    Running,
    Retrying,
    Succeeded,
    Failed,
}

impl StepStatus {
    /// The transitions of a step's life: it starts running; a running step succeeds,
    /// fails or is retried; a failed step is retried; a retried step runs again.
    pub open spec fn spec_can_transition(self, next: StepStatus) -> bool {
        match (self, next) {
            (StepStatus::Pending, StepStatus::Running) => true,
            (StepStatus::Running, StepStatus::Succeeded) => true,
            (StepStatus::Running, StepStatus::Failed) => true,
            (StepStatus::Running, StepStatus::Retrying) => true,
            (StepStatus::Failed, StepStatus::Retrying) => true,
            (StepStatus::Retrying, StepStatus::Running) => true,
            _ => false,
        }
    }

    /// Tells whether a step in this status may go over to `next`.
    #[verifier::when_used_as_spec(spec_can_transition)]
    pub fn can_transition(self, next: StepStatus) -> (b: bool)
        ensures
            b == self.spec_can_transition(next),
    {
        match (self, next) {
            (StepStatus::Pending, StepStatus::Running) => true,
            (StepStatus::Running, StepStatus::Succeeded) => true,
            (StepStatus::Running, StepStatus::Failed) => true,
            (StepStatus::Running, StepStatus::Retrying) => true,
            (StepStatus::Failed, StepStatus::Retrying) => true,
            (StepStatus::Retrying, StepStatus::Running) => true,
            _ => false,
        }
    }

    /// The status's name as text.
    pub open spec fn spec_label(self) -> Seq<char> {
        match self {
            StepStatus::Pending => "Pending"@,
            StepStatus::Running => "Running"@,
            StepStatus::Retrying => "Retrying"@,
            StepStatus::Succeeded => "Succeeded"@,
            StepStatus::Failed => "Failed"@,
        }
    }

    /// The status's name, as it is written in messages.
    pub fn label(self) -> (s: &'static str)
        ensures
            s@ == self.spec_label(),
    {
        match self {
            StepStatus::Pending => "Pending",
            StepStatus::Running => "Running",
            StepStatus::Retrying => "Retrying",
            StepStatus::Succeeded => "Succeeded",
            StepStatus::Failed => "Failed",
        }
    }
}

/// The message of the failure that refuses a transition.
pub open spec fn refusal(name: Seq<char>, from: StepStatus, to: StepStatus) -> Seq<char> {
    "invalid transition for step '"@ + name + "': "@ + from.spec_label() + " -> "@ + to.spec_label()
}

/// What a step instance records.
pub struct StepInstanceView {
    pub name: Seq<char>,
    pub status: StepStatus,
    pub attempts: nat,
}

/// A step as it runs: its name, its status, and how often it was started.
#[derive(Debug)]
pub struct StepInstance {
    name: String,
    status: StepStatus,
    attempts: u32,
}

impl View for StepInstance {
    type V = StepInstanceView;

    closed spec fn view(&self) -> StepInstanceView {
        StepInstanceView { name: self.name@, status: self.status, attempts: self.attempts as nat }
    }
}

impl Clone for StepInstance {
    fn clone(&self) -> (r: Self)
        ensures
            r@ == self@,
    {
        StepInstance { name: self.name.clone(), status: self.status, attempts: self.attempts }
    }
}

impl StepInstance {
    /// A step that has not started yet.
    pub fn new(name: &str) -> (r: Self)
        ensures
            r@ == (StepInstanceView { name: name@, status: StepStatus::Pending, attempts: 0 }),
    {
        StepInstance { name: name.to_owned(), status: StepStatus::Pending, attempts: 0 }
    }

    /// The step's name.
    pub fn name(&self) -> (s: &str)
        ensures
            s@ == self@.name,
    {
        self.name.as_str()
    }

    /// The step's status.
    pub fn status(&self) -> (s: StepStatus)
        ensures
            s == self@.status,
    {
        self.status
    }

    /// How often the step was started.
    pub fn attempts(&self) -> (n: u32)
        ensures
            n == self@.attempts,
    {
        self.attempts
    }

    /// Takes the step over to `next` where its life allows that, and counts the start
    /// where `next` is `Running`. Where it does not, the step stays as it is and the
    /// failure names the step and both statuses.
    pub fn transition(&mut self, next: StepStatus) -> (r: StepResult<()>)
        requires
            old(self)@.status.spec_can_transition(next) && next == StepStatus::Running ==> old(
                self,
            )@.attempts < u32::MAX,
        ensures
            old(self)@.status.spec_can_transition(next) ==> r is Ok && final(self)@ == (StepInstanceView {
                status: next,
                attempts: if next == StepStatus::Running {
                    old(self)@.attempts + 1
                } else {
                    old(self)@.attempts
                },
                ..old(self)@
            }),
            !old(self)@.status.spec_can_transition(next) ==> final(self)@ == old(self)@ && r is Err
                && r->Err_0@ == refusal(old(self)@.name, old(self)@.status, next),
    {
        if self.status.can_transition(next) {
            match next {
                StepStatus::Running => {
                    self.attempts = self.attempts + 1;
                },
                _ => {},
            }
            self.status = next;
            Ok(())
        } else {
            let message = String::from_str("invalid transition for step '").concat(
                self.name.as_str(),
            ).concat("': ").concat(self.status.label()).concat(" -> ").concat(next.label());
            Err(StepError { message })
        }
    }
}

/// Settles a step that was running with what its task gave: a value takes the step to
/// `Succeeded` and is handed on; a failure takes it to `Failed` and is handed on as a
/// failure with the same message. Where the step was not running, the refusal of the
/// transition is the failure.
pub fn settle_step(step: &mut StepInstance, outcome: StepResult<TaskOutput>) -> (r: StepResult<TaskOutput>)
    ensures
        old(step)@.status == StepStatus::Running ==> {
            &&& final(step)@ == (StepInstanceView {
                status: if outcome is Ok {
                    StepStatus::Succeeded
                } else {
                    StepStatus::Failed
                },
                ..old(step)@
            })
            &&& match outcome {
                Ok(output) => r == Ok::<TaskOutput, StepError>(output),
                Err(e) => r is Err && r->Err_0@ == e@,
            }
        },
        old(step)@.status != StepStatus::Running ==> {
            &&& final(step)@ == old(step)@
            &&& r is Err
            &&& r->Err_0@ == refusal(
                old(step)@.name,
                old(step)@.status,
                if outcome is Ok {
                    StepStatus::Succeeded
                } else {
                    StepStatus::Failed
                },
            )
        },
{
    match outcome {
        Ok(output) => match step.transition(StepStatus::Succeeded) {
            Ok(_) => Ok(output),
            Err(refused) => Err(refused),
        },
        Err(e) => match step.transition(StepStatus::Failed) {
            Ok(_) => Err(StepError::message(e.to_string().as_str())),
            Err(refused) => Err(refused),
        },
    }
}

/// True when `function` may give a value for `item`.
pub open spec fn may_yield<F, I, O>(function: F, item: I) -> bool where F: Fn(I) -> StepResult<O> {
    exists|out: O| #[trigger] call_ensures(function, (item,), Ok::<O, StepError>(out))
}

/// A step that applies one function to every item of its input.
pub struct MapStep<F> {
    function: F,
}

impl<F> MapStep<F> {
    /// A step that applies `function`.
    pub fn new(function: F) -> (r: Self)
        ensures
            r.spec_function() == function,
    {
        MapStep { function }
    }

    /// The function that the step applies.
    pub closed spec fn spec_function(&self) -> F {
        self.function
    }

    /// Applies the function to the items of the input, in their order, and gives the
    /// values in the same order. The first failure ends the step and is its result.
    pub fn execute<I, O>(&self, input: Vec<I>) -> (r: StepResult<Vec<O>>) where F: Fn(I) -> StepResult<O>
        requires
            forall|i: int|
                0 <= i < input.len() ==> call_requires(self.spec_function(), (#[trigger] input[i],)),
        ensures
            match r {
                Ok(outs) => {
                    &&& outs.len() == input.len()
                    &&& forall|i: int|
                        0 <= i < input.len() ==> call_ensures(
                            self.spec_function(),
                            (input[i],),
                            Ok::<O, StepError>(#[trigger] outs[i]),
                        )
                },
                Err(e) => exists|k: int|
                    {
                        &&& 0 <= k < input.len()
                        &&& call_ensures(self.spec_function(), (#[trigger] input[k],), Err::<O, StepError>(e))
                        &&& forall|j: int| 0 <= j < k ==> may_yield::<F, I, O>(self.spec_function(), #[trigger] input[j])
                    },
            },
    {
        let mut outs: Vec<O> = Vec::new();
        let ghost items = input@;
        for item in it: input
            invariant
                it.seq() == items,
                outs.len() == it.index(),
                forall|i: int|
                    0 <= i < items.len() ==> call_requires(self.spec_function(), (#[trigger] items[i],)),
                forall|i: int|
                    0 <= i < it.index() ==> call_ensures(
                        self.spec_function(),
                        (items[i],),
                        Ok::<O, StepError>(#[trigger] outs[i]),
                    ),
        {
            match (self.function)(item) {
                Ok(out) => {
                    outs.push(out);
                },
                Err(e) => {
                    proof {
                        let k = it.index() as int;
                        assert forall|j: int| 0 <= j < k implies may_yield::<F, I, O>(
                            self.spec_function(),
                            #[trigger] items[j],
                        ) by {
                            assert(call_ensures(
                                self.spec_function(),
                                (items[j],),
                                Ok::<O, StepError>(outs[j]),
                            ));
                        }
                    }
                    return Err(e);
                },
            }
        }
        Ok(outs)
    }
}

} // verus!
