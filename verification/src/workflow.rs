//! Workflows: a name and the steps to run, in order.

use crate::error::{Error, Failure};
use crate::step::{text_view, IntoStep, Step, StepBuilder, StepModel};
use vstd::prelude::*;
use vstd::std_specs::convert::{FromSpec, FromSpecImpl};

verus! {

/// A workflow: steps that run one after the other.
#[derive(Debug, PartialEq)]
pub struct Workflow {
    /// The workflow's name.
    pub name: String,
    /// What the workflow does.
    pub description: Option<String>,
    /// The steps, in the order in which they run.
    pub steps: Vec<Step>,
}

/// The mathematical content of a [`Workflow`].
pub struct WorkflowModel {
    pub name: Seq<char>,
    pub description: Option<Seq<char>>,
    pub steps: Seq<StepModel>,
}

/// The steps of a list, each as its content.
pub open spec fn steps_view(steps: Seq<Step>) -> Seq<StepModel> {
    Seq::new(steps.len(), |i: int| steps[i]@)
}

impl View for Workflow {
    type V = WorkflowModel;

    open spec fn view(&self) -> WorkflowModel {
        WorkflowModel {
            name: self.name@,
            description: text_view(self.description),
            steps: steps_view(self.steps@),
        }
    }
}

/// What is wrong with the step at `index`, if anything: it names no service,
/// or else it names no method.
pub open spec fn step_fault(step: StepModel, index: nat) -> Option<Failure> {
    if step.service.len() == 0 {
        Some(Failure::EmptyService { index })
    } else if step.method.len() == 0 {
        Some(Failure::EmptyMethod { index })
    } else {
        None
    }
}

/// What is wrong with the first of `steps` with which anything is wrong.
pub open spec fn first_fault(steps: Seq<StepModel>) -> Option<Failure>
    decreases steps.len(),
{
    if steps.len() == 0 {
        None
    } else {
        match first_fault(steps.drop_last()) {
            Some(failure) => Some(failure),
            None => step_fault(steps.last(), (steps.len() - 1) as nat),
        }
    }
}

impl WorkflowModel {
    /// A workflow of that name without steps.
    pub open spec fn named(name: Seq<char>) -> WorkflowModel {
        WorkflowModel { name, description: None, steps: Seq::empty() }
    }

    /// This workflow with one more step at its end.
    pub open spec fn added(self, step: StepModel) -> WorkflowModel {
        WorkflowModel { steps: self.steps.push(step), ..self }
    }

    /// Whether the workflow may run, and if not, the first thing that is
    /// wrong with it: an empty name, then no steps, then the first faulty
    /// step.
    pub open spec fn checked(self) -> Result<(), Failure> {
        if self.name.len() == 0 {
            Err(Failure::EmptyName)
        } else if self.steps.len() == 0 {
            Err(Failure::NoSteps)
        } else {
            match first_fault(self.steps) {
                Some(failure) => Err(failure),
                None => Ok(()),
            }
        }
    }

    /// Whether the workflow may run: it has a name and at least one step,
    /// and each step names a service and a method.
    pub open spec fn valid(self) -> bool {
        &&& self.name.len() > 0
        &&& self.steps.len() > 0
        &&& forall|i: int|
            0 <= i < self.steps.len() ==> (#[trigger] self.steps[i]).service.len() > 0
                && self.steps[i].method.len() > 0
    }
}

/// No step is faulty exactly where every step names a service and a method.
pub proof fn lemma_first_fault(steps: Seq<StepModel>)
    ensures
        first_fault(steps) is None <==> forall|i: int|
            0 <= i < steps.len() ==> (#[trigger] steps[i]).service.len() > 0
                && steps[i].method.len() > 0,
    decreases steps.len(),
{
    if steps.len() > 0 {
        let front = steps.drop_last();
        lemma_first_fault(front);
        if first_fault(steps) is None {
            assert forall|i: int| 0 <= i < steps.len() implies (#[trigger] steps[i]).service.len()
                > 0 && steps[i].method.len() > 0 by {
                if i < front.len() {
                    assert(front[i] == steps[i]);
                }
            }
        } else if first_fault(front) is Some {
            let i = choose|i: int|
                0 <= i < front.len() && !((#[trigger] front[i]).service.len() > 0
                    && front[i].method.len() > 0);
            assert(steps[i] == front[i]);
        }
    }
}

/// A workflow passes the check exactly where it is valid.
pub proof fn lemma_checked_iff_valid(workflow: WorkflowModel)
    ensures
        workflow.checked() is Ok <==> workflow.valid(),
{
    lemma_first_fault(workflow.steps);
}

/// Checks that a workflow may run.
pub fn validate(workflow: &Workflow) -> (result: Result<(), Error>)
    ensures
        match result {
            Ok(_) => workflow@.checked() is Ok,
            Err(error) => workflow@.checked() == Err::<(), Failure>(error@),
        },
{
    if workflow.name.as_str().is_empty() {
        return Err(Error::EmptyName);
    }
    if workflow.steps.len() == 0 {
        return Err(Error::NoSteps);
    }
    let ghost steps = steps_view(workflow.steps@);
    let mut i: usize = 0;
    assert(steps.take(0) =~= Seq::empty());
    while i < workflow.steps.len()
        invariant
            i <= workflow.steps.len(),
            steps == steps_view(workflow.steps@),
            workflow@.name.len() > 0,
            workflow.steps.len() > 0,
            first_fault(steps.take(i as int)) is None,
        decreases workflow.steps.len() - i,
    {
        assert(steps.take(i + 1).drop_last() =~= steps.take(i as int));
        let step = &workflow.steps[i];
        if step.service.as_str().is_empty() {
            proof {
                lemma_fault_stays(steps, i + 1);
            }
            return Err(Error::EmptyService { index: i });
        }
        if step.method.as_str().is_empty() {
            proof {
                lemma_fault_stays(steps, i + 1);
            }
            return Err(Error::EmptyMethod { index: i });
        }
        i = i + 1;
    }
    assert(steps.take(i as int) =~= steps);
    Ok(())
}

/// A fault among the first `n` steps is the fault of the whole list.
proof fn lemma_fault_stays(steps: Seq<StepModel>, n: int)
    requires
        0 <= n <= steps.len(),
        first_fault(steps.take(n)) is Some,
    ensures
        first_fault(steps) == first_fault(steps.take(n)),
    decreases steps.len() - n,
{
    if n < steps.len() {
        assert(steps.take(n + 1).drop_last() =~= steps.take(n));
        lemma_fault_stays(steps, n + 1);
    } else {
        assert(steps.take(n) =~= steps);
    }
}

fn clone_steps(steps: &Vec<Step>) -> (copies: Vec<Step>)
    ensures
        steps_view(copies@) == steps_view(steps@),
{
    let mut copies: Vec<Step> = Vec::new();
    let mut i: usize = 0;
    while i < steps.len()
        invariant
            i <= steps.len(),
            copies.len() == i,
            forall|j: int| 0 <= j < i ==> copies[j]@ == steps[j]@,
        decreases steps.len() - i,
    {
        copies.push(steps[i].clone());
        i = i + 1;
    }
    assert(steps_view(copies@) =~= steps_view(steps@));
    copies
}

impl Clone for Workflow {
    fn clone(&self) -> (copy: Self)
        ensures
            copy@ == self@,
    {
        Workflow {
            name: self.name.clone(),
            description: match &self.description {
                Some(text) => Some(text.clone()),
                None => None,
            },
            steps: clone_steps(&self.steps),
        }
    }
}

impl Workflow {
    /// Starts a workflow of that name.
    pub fn new(name: &str) -> (builder: WorkflowBuilder)
        ensures
            builder@ == WorkflowModel::named(name@),
    {
        WorkflowBuilder::new(name)
    }

    /// A workflow of that name without steps.
    pub fn empty(name: &str) -> (workflow: Self)
        ensures
            workflow@ == WorkflowModel::named(name@),
    {
        let workflow = Workflow { name: name.to_owned(), description: None, steps: Vec::new() };
        assert(workflow@.steps =~= Seq::empty());
        workflow
    }
}

/// A workflow in the making.
#[derive(Debug)]
pub struct WorkflowBuilder {
    workflow: Workflow,
}

impl View for WorkflowBuilder {
    type V = WorkflowModel;

    closed spec fn view(&self) -> WorkflowModel {
        self.workflow@
    }
}

impl Clone for WorkflowBuilder {
    fn clone(&self) -> (copy: Self)
        ensures
            copy@ == self@,
    {
        WorkflowBuilder { workflow: self.workflow.clone() }
    }
}

impl WorkflowBuilder {
    /// Starts a workflow of that name: no description, no steps.
    pub fn new(name: &str) -> (builder: Self)
        ensures
            builder@ == WorkflowModel::named(name@),
    {
        WorkflowBuilder { workflow: Workflow::empty(name) }
    }

    /// Says what the workflow does.
    pub fn description(self, desc: &str) -> (builder: Self)
        ensures
            builder@ == (WorkflowModel { description: Some(desc@), ..self@ }),
    {
        let mut workflow = self.workflow;
        workflow.description = Some(desc.to_owned());
        WorkflowBuilder { workflow }
    }

    /// Adds a step at the end, given as a step or as its builder.
    pub fn add<S: IntoStep>(self, step: S) -> (builder: Self)
        ensures
            builder@ == self@.added(step.step_model()),
    {
        self.push(step.into_step())
    }

    /// Adds a step at the end, given as its builder.
    pub fn step(self, step: StepBuilder) -> (builder: Self)
        ensures
            builder@ == self@.added(step@),
    {
        self.push(step.build())
    }

    /// The finished workflow.
    pub fn build(self) -> (workflow: Workflow)
        ensures
            workflow@ == self@,
    {
        self.workflow
    }

    fn push(self, step: Step) -> (builder: Self)
        ensures
            builder@ == self@.added(step@),
    {
        let mut workflow = self.workflow;
        workflow.steps.push(step);
        assert(steps_view(workflow.steps@) =~= steps_view(self.workflow.steps@).push(step@));
        WorkflowBuilder { workflow }
    }
}

impl From<WorkflowBuilder> for Workflow {
    fn from(builder: WorkflowBuilder) -> (workflow: Workflow) {
        builder.workflow
    }
}

impl FromSpecImpl<WorkflowBuilder> for Workflow {
    open spec fn obeys_from_spec() -> bool {
        true
    }

    closed spec fn from_spec(builder: WorkflowBuilder) -> Workflow {
        builder.workflow
    }
}

/// The workflow that a builder turns into is the workflow that it has
/// built.
pub proof fn lemma_workflow_from_builder(builder: WorkflowBuilder)
    ensures
        <Workflow as FromSpec<WorkflowBuilder>>::from_spec(builder)@ == builder@,
{
}

} // verus!
