//! The execution engine: what a run decides between one call and the next.
//!
//! A run goes through the steps of a workflow in their order, one at a time.
//! Before each call the step's parameters are resolved against the variable
//! store as it then stands; after it the answer is read, and either the run
//! fails, for good, or the result is stored and the next step is up. The
//! calls themselves are made by whoever drives the run: [`Execution`] says
//! which call is next, and takes what came back.

use crate::context::{Context, ContextModel};
use crate::error::{Cause, Error, Failure};
use crate::step::{Step, StepModel};
use crate::template::{reports, resolve_entries, resolved_entries, Unrendered};
use crate::value::{entries_view, Entry, Json, JsonModel};
use crate::workflow::{Workflow, WorkflowModel};
use vstd::prelude::*;

verus! {

/// What a service says about a failure.
#[derive(Debug, PartialEq)]
pub struct ErrorInfo {
    /// The failure in words.
    pub message: String,
}

/// What a service answered to a call.
#[derive(Debug, PartialEq)]
pub struct Response {
    /// Whether the call succeeded.
    pub ok: bool,
    /// The result, if the call succeeded and gave one.
    pub result: Option<Json>,
    /// The failure, if the call failed and the service said why.
    pub error: Option<ErrorInfo>,
}

/// The mathematical content of a [`Response`].
pub struct ResponseModel {
    pub ok: bool,
    pub result: Option<JsonModel>,
    pub error: Option<Seq<char>>,
}

impl View for Response {
    type V = ResponseModel;

    open spec fn view(&self) -> ResponseModel {
        ResponseModel {
            ok: self.ok,
            result: match self.result {
                Some(value) => Some(value@),
                None => None,
            },
            error: match self.error {
                Some(info) => Some(info.message@),
                None => None,
            },
        }
    }
}

/// The content of what came back from a call: the answer, or the reason why
/// there is none.
pub open spec fn outcome_view(outcome: Result<Response, String>) -> Result<
    ResponseModel,
    Seq<char>,
> {
    match outcome {
        Ok(response) => Ok(response@),
        Err(reason) => Err(reason@),
    }
}

/// What one step of a run gave.
#[derive(Debug, PartialEq)]
pub struct StepResult {
    /// The index of the step in its workflow.
    pub index: usize,
    /// The step that was run.
    pub step: Step,
    /// The result of its call.
    pub result: Json,
    /// How long the step took, in nanoseconds.
    pub duration_ns: u64,
}

/// The mathematical content of a [`StepResult`].
pub struct StepResultModel {
    pub index: nat,
    pub step: StepModel,
    pub result: JsonModel,
    pub duration_ns: nat,
}

impl View for StepResult {
    type V = StepResultModel;

    open spec fn view(&self) -> StepResultModel {
        StepResultModel {
            index: self.index as nat,
            step: self.step@,
            result: self.result@,
            duration_ns: self.duration_ns as nat,
        }
    }
}

/// The step results of a list, each as its content.
pub open spec fn step_results_view(results: Seq<StepResult>) -> Seq<StepResultModel> {
    Seq::new(results.len(), |i: int| results[i]@)
}

/// The results alone of a list of step results.
pub open spec fn results_of(step_results: Seq<StepResultModel>) -> Seq<JsonModel> {
    Seq::new(step_results.len(), |i: int| step_results[i].result)
}

/// What a run that went through all its steps gave.
#[derive(Debug)]
pub struct ExecutionResult {
    /// The result of the last step, or null where no step ran.
    pub result: Json,
    /// What each step gave, in the order in which the steps ran.
    pub step_results: Vec<StepResult>,
    /// The variable store as the last step left it.
    pub context: Context,
    /// How long the run took, in nanoseconds.
    pub total_ns: u64,
}

/// The state of a run between two steps: the workflow, the variable store,
/// and what the completed steps gave.
pub struct ExecutionModel {
    pub workflow: WorkflowModel,
    pub context: ContextModel,
    pub step_results: Seq<StepResultModel>,
}

impl ExecutionModel {
    /// A run of `workflow` in which no step has completed.
    pub open spec fn started(workflow: WorkflowModel) -> ExecutionModel {
        ExecutionModel { workflow, context: ContextModel::empty(), step_results: Seq::empty() }
    }

    /// How many steps have completed; also the index of the step that is up.
    pub open spec fn completed(self) -> nat {
        self.step_results.len()
    }

    /// Whether every step has completed.
    pub open spec fn done(self) -> bool {
        self.step_results.len() == self.workflow.steps.len()
    }

    /// The step that is up.
    pub open spec fn current(self) -> StepModel
        recommends
            !self.done(),
    {
        self.workflow.steps[self.step_results.len() as int]
    }

    /// What holds of every run: the steps that have completed are the first
    /// steps of the workflow, in their order; each step result carries its
    /// step and its place; and the history of the store is the results of
    /// those steps, in that order.
    pub open spec fn consistent(self) -> bool {
        &&& self.step_results.len() <= self.workflow.steps.len()
        &&& self.context.results == results_of(self.step_results)
        &&& forall|i: int|
            0 <= i < self.step_results.len() ==> (#[trigger] self.step_results[i]).index == i
                && self.step_results[i].step == self.workflow.steps[i]
    }

    /// The run after the step that is up completed with `result`: the
    /// result joins the history, then the step's output variable, if it
    /// names one, is set to it.
    pub open spec fn recorded(self, result: JsonModel, duration_ns: nat) -> ExecutionModel
        recommends
            !self.done(),
    {
        let step = self.current();
        let pushed = self.context.pushed(result);
        ExecutionModel {
            workflow: self.workflow,
            context: match step.output {
                Some(name) => pushed.with(name, result),
                None => pushed,
            },
            step_results: self.step_results.push(
                StepResultModel { index: self.step_results.len(), step, result, duration_ns },
            ),
        }
    }

    /// The result of the run as a whole: that of the step that completed
    /// last, or null where none has.
    pub open spec fn final_result(self) -> JsonModel {
        if self.step_results.len() > 0 {
            self.step_results.last().result
        } else {
            JsonModel::Null
        }
    }

    /// The parameters of the call of the step that is up, resolved against
    /// the store as it stands.
    pub open spec fn request(self) -> Result<JsonModel, Unrendered>
        recommends
            !self.done(),
    {
        resolved_params(self.context, self.current().params)
    }
}

/// A run that waits for the answer to a call.
pub struct PendingModel {
    /// The run as it was before the call.
    pub run: ExecutionModel,
    /// The parameters of the call: those of the step that is up, resolved.
    pub params: JsonModel,
}

impl PendingModel {
    /// What holds of every pending call: it is the call of the step that is
    /// up in a consistent run, and its parameters are that step's, resolved
    /// against the store as it stood when the call was asked for.
    pub open spec fn consistent(self) -> bool {
        &&& self.run.consistent()
        &&& !self.run.done()
        &&& self.run.request() == Ok::<JsonModel, Unrendered>(self.params)
    }
}

/// The parameters of a call: each parameter of the step under its name,
/// resolved against the store, as one record.
pub open spec fn resolved_params(store: ContextModel, params: Seq<(Seq<char>, JsonModel)>) -> Result<
    JsonModel,
    Unrendered,
> {
    match resolved_entries(store.snapshot(), params) {
        Ok(members) => Ok(JsonModel::Object(members)),
        Err(cause) => Err(cause),
    }
}

/// What the call of the step at `index` gave: the result of an answer that
/// reports success, null where it holds none; else the failure, with the
/// message that the service gave, empty where it gave none, or with the
/// reason why there is no answer.
pub open spec fn answered(
    index: nat,
    step: StepModel,
    outcome: Result<ResponseModel, Seq<char>>,
) -> Result<JsonModel, Failure> {
    match outcome {
        Err(reason) => Err(
            Failure::StepUnreachable { index, service: step.service, method: step.method, reason },
        ),
        Ok(response) => if response.ok {
            Ok(
                match response.result {
                    Some(value) => value,
                    None => JsonModel::Null,
                },
            )
        } else {
            Err(
                Failure::StepReported {
                    index,
                    service: step.service,
                    method: step.method,
                    message: match response.error {
                        Some(message) => message,
                        None => Seq::empty(),
                    },
                },
            )
        },
    }
}

/// Resolves the parameters of a step against the store as it stands.
pub fn resolve_params(ctx: &Context, params: &Vec<Entry>) -> (result: Result<Json, Error>)
    ensures
        match result {
            Ok(record) => resolved_params(ctx@, entries_view(params@)) == Ok::<
                JsonModel,
                Unrendered,
            >(record@),
            Err(error) => resolved_params(ctx@, entries_view(params@)) matches Err(cause)
                && reports(error@, cause),
        },
{
    match resolve_entries(&ctx.as_json(), params) {
        Ok(members) => Ok(Json::Object(members)),
        Err(error) => Err(error),
    }
}

/// Reads what came back from the call of the step at `index`.
pub fn interpret_outcome(index: usize, step: &Step, outcome: Result<Response, String>) -> (result:
    Result<Json, Error>)
    ensures
        match result {
            Ok(value) => answered(index as nat, step@, outcome_view(outcome)) == Ok::<
                JsonModel,
                Failure,
            >(value@),
            Err(error) => answered(index as nat, step@, outcome_view(outcome)) == Err::<
                JsonModel,
                Failure,
            >(error@),
        },
{
    match outcome {
        Err(reason) => Err(
            Error::StepExecution {
                index,
                service: step.service.clone(),
                method: step.method.clone(),
                cause: Cause::Unreachable(reason),
            },
        ),
        Ok(response) => {
            if response.ok {
                match response.result {
                    Some(value) => Ok(value),
                    None => Ok(Json::Null),
                }
            } else {
                let message = match response.error {
                    Some(info) => info.message,
                    None => String::new(),
                };
                Err(
                    Error::StepExecution {
                        index,
                        service: step.service.clone(),
                        method: step.method.clone(),
                        cause: Cause::Reported(message),
                    },
                )
            }
        },
    }
}

/// A run between two steps.
#[derive(Debug)]
pub struct Execution<'a> {
    workflow: &'a Workflow,
    context: Context,
    step_results: Vec<StepResult>,
}

/// A run that waits for the answer to a call.
#[derive(Debug)]
pub struct Pending<'a> {
    run: Execution<'a>,
    params: Json,
}

/// A run in which every step has completed.
#[derive(Debug)]
pub struct Finished<'a> {
    run: Execution<'a>,
}

/// What is next in a run.
#[derive(Debug)]
pub enum Turn<'a> {
    /// A call is to be made, and its answer handed back.
    Call(Pending<'a>),
    /// Every step has completed.
    Done(Finished<'a>),
}

impl<'a> View for Execution<'a> {
    type V = ExecutionModel;

    closed spec fn view(&self) -> ExecutionModel {
        ExecutionModel {
            workflow: self.workflow@,
            context: self.context@,
            step_results: step_results_view(self.step_results@),
        }
    }
}

impl<'a> View for Pending<'a> {
    type V = PendingModel;

    closed spec fn view(&self) -> PendingModel {
        PendingModel { run: self.run@, params: self.params@ }
    }
}

impl<'a> View for Finished<'a> {
    type V = ExecutionModel;

    closed spec fn view(&self) -> ExecutionModel {
        self.run@
    }
}

impl<'a> Execution<'a> {
    #[verifier::type_invariant]
    spec fn inv(&self) -> bool {
        self@.consistent()
    }

    /// Starts a run of `workflow`: no step has completed, and the store is
    /// empty.
    pub fn start(workflow: &'a Workflow) -> (run: Self)
        ensures
            run@ == ExecutionModel::started(workflow@),
            run@.consistent(),
    {
        let context = Context::new();
        let step_results: Vec<StepResult> = Vec::new();
        assert(step_results_view(step_results@) =~= Seq::empty());
        assert(context@.results =~= results_of(step_results_view(step_results@)));
        Execution { workflow, context, step_results }
    }

    /// How many steps have completed.
    pub fn completed(&self) -> (n: usize)
        ensures
            n == self@.completed(),
            self@.consistent(),
    {
        proof {
            use_type_invariant(self);
        }
        self.step_results.len()
    }

    /// The variable store as the last completed step left it.
    pub fn context(&self) -> (ctx: &Context)
        ensures
            ctx@ == self@.context,
    {
        &self.context
    }

    /// Says what is next. Where a step is up, its parameters are resolved
    /// against the store as it stands now, and the call is to be made; a
    /// template that cannot be rendered fails the run. Where every step has
    /// completed, the run is done.
    pub fn advance(self) -> (result: Result<Turn<'a>, Error>)
        ensures
            self@.consistent(),
            match result {
                Ok(Turn::Done(finished)) => self@.done() && finished@ == self@,
                Ok(Turn::Call(pending)) => {
                    &&& !self@.done()
                    &&& pending@.run == self@
                    &&& pending@.consistent()
                },
                Err(error) => {
                    &&& !self@.done()
                    &&& self@.request() matches Err(cause)
                    &&& reports(error@, cause)
                },
            },
    {
        proof {
            use_type_invariant(&self);
        }
        let index = self.step_results.len();
        if index >= self.workflow.steps.len() {
            return Ok(Turn::Done(Finished { run: self }));
        }
        match resolve_params(&self.context, &self.workflow.steps[index].params) {
            Ok(params) => Ok(Turn::Call(Pending { run: self, params })),
            Err(error) => Err(error),
        }
    }
}

impl<'a> Pending<'a> {
    #[verifier::type_invariant]
    spec fn inv(&self) -> bool {
        self@.consistent()
    }

    /// The index of the step that asks for the call.
    pub fn index(&self) -> (index: usize)
        ensures
            index == self@.run.completed(),
            self@.consistent(),
    {
        proof {
            use_type_invariant(self);
            use_type_invariant(&self.run);
        }
        self.run.step_results.len()
    }

    /// The step that asks for the call.
    pub fn step(&self) -> (step: &Step)
        ensures
            step@ == self@.run.current(),
            self@.consistent(),
    {
        proof {
            use_type_invariant(self);
            use_type_invariant(&self.run);
        }
        &self.run.workflow.steps[self.run.step_results.len()]
    }

    /// The parameters of the call: a record.
    pub fn params(&self) -> (params: &Json)
        ensures
            params@ == self@.params,
            self@.consistent(),
    {
        proof {
            use_type_invariant(self);
        }
        &self.params
    }

    /// Takes what came back from the call, which took `elapsed_ns`
    /// nanoseconds. An answer that reports success completes the step: its
    /// result joins the history, and is bound to the step's output variable
    /// if it names one. Anything else fails the run.
    pub fn answer(self, outcome: Result<Response, String>, elapsed_ns: u64) -> (result: Result<
        Execution<'a>,
        Error,
    >)
        ensures
            self@.consistent(),
            match result {
                Ok(run) => {
                    &&& run@.consistent()
                    &&& answered(
                        self@.run.completed(),
                        self@.run.current(),
                        outcome_view(outcome),
                    ) matches Ok(value)
                    &&& run@ == self@.run.recorded(value, elapsed_ns as nat)
                },
                Err(error) => answered(
                    self@.run.completed(),
                    self@.run.current(),
                    outcome_view(outcome),
                ) == Err::<JsonModel, Failure>(error@),
            },
    {
        proof {
            use_type_invariant(&self);
            use_type_invariant(&self.run);
        }
        let ghost before = self@.run;
        let workflow = self.run.workflow;
        let mut context = self.run.context;
        let mut step_results = self.run.step_results;
        let index = step_results.len();
        let step = &workflow.steps[index];
        match interpret_outcome(index, step, outcome) {
            Err(error) => Err(error),
            Ok(value) => {
                context.push_result(value.clone());
                match &step.output {
                    Some(name) => {
                        context.set(name.as_str(), value.clone());
                    },
                    None => {},
                }
                step_results.push(
                    StepResult { index, step: step.clone(), result: value, duration_ns: elapsed_ns },
                );
                proof {
                    let after = before.recorded(value@, elapsed_ns as nat);
                    assert(step_results_view(step_results@) =~= after.step_results);
                    lemma_recorded_consistent(before, value@, elapsed_ns as nat);
                }
                Ok(Execution { workflow, context, step_results })
            },
        }
    }
}

impl<'a> Finished<'a> {
    #[verifier::type_invariant]
    spec fn inv(&self) -> bool {
        self@.consistent() && self@.done()
    }

    /// What the run gave, given that it took `total_ns` nanoseconds.
    pub fn into_result(self, total_ns: u64) -> (outcome: ExecutionResult)
        ensures
            self@.consistent(),
            self@.done(),
            outcome.result@ == self@.final_result(),
            step_results_view(outcome.step_results@) == self@.step_results,
            outcome.context@ == self@.context,
            outcome.total_ns == total_ns,
    {
        proof {
            use_type_invariant(&self);
            use_type_invariant(&self.run);
        }
        let result = match self.run.context.prev() {
            Some(last) => last.clone(),
            None => Json::Null,
        };
        ExecutionResult {
            result,
            step_results: self.run.step_results,
            context: self.run.context,
            total_ns,
        }
    }
}

/// Recording a step keeps a run consistent, and completes one step more.
pub proof fn lemma_recorded_consistent(run: ExecutionModel, result: JsonModel, duration_ns: nat)
    requires
        run.consistent(),
        !run.done(),
    ensures
        run.recorded(result, duration_ns).consistent(),
        run.recorded(result, duration_ns).completed() == run.completed() + 1,
        run.recorded(result, duration_ns).workflow == run.workflow,
{
    let after = run.recorded(result, duration_ns);
    assert(after.context.results =~= results_of(after.step_results));
}

/// A step that names an output variable binds its result to that name: the
/// variable holds exactly the result once the step is recorded, and so does
/// the scope over which the next step's templates are expanded, unless the
/// name is one of those reserved for the history.
pub proof fn lemma_output_bound(
    run: ExecutionModel,
    result: JsonModel,
    duration_ns: nat,
    name: Seq<char>,
)
    requires
        run.current().output == Some(name),
    ensures
        run.recorded(result, duration_ns).context.get(name) == Some(result),
        !crate::context::reserved(name) ==> crate::value::lookup(
            run.recorded(result, duration_ns).context.snapshot()->Object_0,
            name,
        ) == Some(result),
{
    let after = run.recorded(result, duration_ns);
    crate::context::lemma_get_after_set(run.context.pushed(result), name, result, name);
    if !crate::context::reserved(name) {
        crate::context::lemma_snapshot_keeps_variable(after.context, name);
    }
}

/// A variable keeps what it holds through every later step that does not
/// name it as its output, in the store and, unless its name is reserved, in
/// the scope of the steps that follow.
pub proof fn lemma_binding_stays(
    run: ExecutionModel,
    result: JsonModel,
    duration_ns: nat,
    name: Seq<char>,
)
    requires
        run.current().output != Some(name),
    ensures
        run.recorded(result, duration_ns).context.get(name) == run.context.get(name),
        !crate::context::reserved(name) ==> crate::value::lookup(
            run.recorded(result, duration_ns).context.snapshot()->Object_0,
            name,
        ) == run.context.get(name),
{
    match run.current().output {
        Some(other) => {
            crate::context::lemma_get_after_set(run.context.pushed(result), other, result, name);
        },
        None => {},
    }
    if !crate::context::reserved(name) {
        crate::context::lemma_snapshot_keeps_variable(
            run.recorded(result, duration_ns).context,
            name,
        );
    }
}

/// The result of a run is the result of the step recorded last. It is the
/// previous result of the store; and in a run that is done it is null by
/// default only where the workflow has no step.
pub proof fn lemma_final_result(run: ExecutionModel, result: JsonModel, duration_ns: nat)
    ensures
        run.recorded(result, duration_ns).final_result() == result,
        ExecutionModel::started(run.workflow).final_result() == JsonModel::Null,
        run.consistent() ==> run.final_result() == match run.context.previous() {
            Some(last) => last,
            None => JsonModel::Null,
        },
        run.consistent() && run.done() && run.workflow.steps.len() > 0 ==> run.final_result()
            == run.step_results[run.workflow.steps.len() - 1].result
            && run.step_results[run.workflow.steps.len() - 1].step
            == run.workflow.steps[run.workflow.steps.len() - 1],
        run.done() && run.workflow.steps.len() == 0 ==> run.final_result() == JsonModel::Null,
{
}

} // verus!
