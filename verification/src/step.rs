//! Steps: one remote call each, with its parameters.

use crate::value::{
    clone_entries, entries_view, set_entry, upsert, Entry, IntoJson, Json, JsonModel,
};
use vstd::prelude::*;
use vstd::std_specs::convert::{FromSpec, FromSpecImpl};

verus! {

/// One step of a workflow: a call of `method` on `service`.
#[derive(Debug, PartialEq)]
pub struct Step {
    /// The service to call.
    pub service: String,
    /// The method to call on it.
    pub method: String,
    /// The parameters of the call, which may hold templates.
    pub params: Vec<Entry>,
    /// The variable that takes the result, if any.
    pub output: Option<String>,
    /// What the step is for. It has no effect on the run.
    pub description: Option<String>,
}

/// The mathematical content of a [`Step`].
pub struct StepModel {
    pub service: Seq<char>,
    pub method: Seq<char>,
    pub params: Seq<(Seq<char>, JsonModel)>,
    pub output: Option<Seq<char>>,
    pub description: Option<Seq<char>>,
}

/// The content of a string that may be absent.
pub open spec fn text_view(text: Option<String>) -> Option<Seq<char>> {
    match text {
        Some(s) => Some(s@),
        None => None,
    }
}

impl View for Step {
    type V = StepModel;

    open spec fn view(&self) -> StepModel {
        StepModel {
            service: self.service@,
            method: self.method@,
            params: entries_view(self.params@),
            output: text_view(self.output),
            description: text_view(self.description),
        }
    }
}

/// The record that marks `template` as a template: one member, named
/// `__template__`, which holds the template's text.
pub open spec fn template_record(template: Seq<char>) -> JsonModel {
    JsonModel::Object(seq![("__template__"@, JsonModel::String(template))])
}

/// `base` after each member of `extra`, first to last, was stored in it
/// under its name.
pub open spec fn merged(base: Seq<(Seq<char>, JsonModel)>, extra: Seq<(Seq<char>, JsonModel)>) -> Seq<
    (Seq<char>, JsonModel),
>
    decreases extra.len(),
{
    if extra.len() == 0 {
        base
    } else {
        upsert(merged(base, extra.drop_last()), extra.last().0, extra.last().1)
    }
}

impl StepModel {
    /// A call of `method` on `service` without parameters.
    pub open spec fn call(service: Seq<char>, method: Seq<char>) -> StepModel {
        StepModel {
            service,
            method,
            params: Seq::empty(),
            output: None,
            description: None,
        }
    }

    /// This step with the parameter `key` set to `value`.
    pub open spec fn with_param(self, key: Seq<char>, value: JsonModel) -> StepModel {
        StepModel { params: upsert(self.params, key, value), ..self }
    }

    /// This step with every member of a record as a parameter; any other
    /// value changes nothing.
    pub open spec fn with_params(self, params: JsonModel) -> StepModel {
        match params {
            JsonModel::Object(extra) => StepModel { params: merged(self.params, extra), ..self },
            _ => self,
        }
    }
}

fn clone_text(text: &Option<String>) -> (copy: Option<String>)
    ensures
        text_view(copy) == text_view(*text),
{
    match text {
        Some(s) => Some(s.clone()),
        None => None,
    }
}

impl Clone for Step {
    fn clone(&self) -> (copy: Self)
        ensures
            copy@ == self@,
    {
        Step {
            service: self.service.clone(),
            method: self.method.clone(),
            params: clone_entries(&self.params),
            output: clone_text(&self.output),
            description: clone_text(&self.description),
        }
    }
}

impl Step {
    /// Starts a step that calls `method` on `service`.
    pub fn call(service: &str, method: &str) -> (builder: StepBuilder)
        ensures
            builder@ == StepModel::call(service@, method@),
    {
        StepBuilder::new(service, method)
    }

    /// Starts a step from a service's name alone: the method has the same
    /// name.
    pub fn service(service: &str) -> (builder: StepBuilder)
        ensures
            builder@ == StepModel::call(service@, service@),
    {
        StepBuilder::new(service, service)
    }
}

/// A step in the making.
#[derive(Debug)]
pub struct StepBuilder {
    step: Step,
}

impl View for StepBuilder {
    type V = StepModel;

    closed spec fn view(&self) -> StepModel {
        self.step@
    }
}

impl Clone for StepBuilder {
    fn clone(&self) -> (copy: Self)
        ensures
            copy@ == self@,
    {
        StepBuilder { step: self.step.clone() }
    }
}

impl StepBuilder {
    /// Starts a step that calls `method` on `service`: no parameters, no
    /// output variable, no description.
    pub fn new(service: &str, method: &str) -> (builder: Self)
        ensures
            builder@ == StepModel::call(service@, method@),
    {
        let builder = StepBuilder {
            step: Step {
                service: service.to_owned(),
                method: method.to_owned(),
                params: Vec::new(),
                output: None,
                description: None,
            },
        };
        assert(builder@.params =~= Seq::empty());
        builder
    }

    /// Sets a parameter.
    pub fn with_param<V: IntoJson>(self, key: &str, value: V) -> (builder: Self)
        ensures
            builder@ == self@.with_param(key@, value.json_model()),
    {
        let mut step = self.step;
        set_entry(&mut step.params, key.to_owned(), value.into_json());
        StepBuilder { step }
    }

    /// Sets a parameter to a template, which is expanded when the step runs.
    pub fn with_template_param(self, key: &str, template: &str) -> (builder: Self)
        ensures
            builder@ == self@.with_param(key@, template_record(template@)),
    {
        let mut members: Vec<Entry> = Vec::new();
        members.push(Entry { key: "__template__".to_owned(), value: Json::String(template.to_owned()) });
        let record = Json::Object(members);
        assert(record@ =~= template_record(template@)) by {
            assert(entries_view(members@) =~= seq![
                ("__template__"@, JsonModel::String(template@)),
            ]);
        }
        self.with_param(key, record)
    }

    /// Sets every member of a record as a parameter, first to last; any
    /// other value changes nothing.
    pub fn with_params(self, params: Json) -> (builder: Self)
        ensures
            builder@ == self@.with_params(params@),
    {
        let mut step = self.step;
        match params {
            Json::Object(extra) => {
                let ghost base = entries_view(step.params@);
                let ghost model = entries_view(extra@);
                let mut i: usize = 0;
                assert(model.take(0) =~= Seq::empty());
                while i < extra.len()
                    invariant
                        i <= extra.len(),
                        model == entries_view(extra@),
                        entries_view(step.params@) == merged(base, model.take(i as int)),
                        step.service == self.step.service,
                        step.method == self.step.method,
                        step.output == self.step.output,
                        step.description == self.step.description,
                    decreases extra.len() - i,
                {
                    assert(model.take(i + 1).drop_last() =~= model.take(i as int));
                    set_entry(&mut step.params, extra[i].key.clone(), extra[i].value.clone());
                    i = i + 1;
                }
                assert(model.take(i as int) =~= model);
            },
            _ => {},
        }
        StepBuilder { step }
    }

    /// Names the variable that takes the step's result.
    pub fn output(self, name: &str) -> (builder: Self)
        ensures
            builder@ == (StepModel { output: Some(name@), ..self@ }),
    {
        let mut step = self.step;
        step.output = Some(name.to_owned());
        StepBuilder { step }
    }

    /// Says what the step is for.
    pub fn description(self, desc: &str) -> (builder: Self)
        ensures
            builder@ == (StepModel { description: Some(desc@), ..self@ }),
    {
        let mut step = self.step;
        step.description = Some(desc.to_owned());
        StepBuilder { step }
    }

    /// The finished step.
    pub fn build(self) -> (step: Step)
        ensures
            step@ == self@,
    {
        self.step
    }
}

/// What can be added to a workflow as a step.
pub trait IntoStep: Sized {
    /// The content of the step that this turns into.
    spec fn step_model(self) -> StepModel;

    /// Turns this into a step.
    fn into_step(self) -> (step: Step)
        ensures
            step@ == self.step_model(),
    ;
}

impl IntoStep for Step {
    open spec fn step_model(self) -> StepModel {
        self@
    }

    fn into_step(self) -> (step: Step) {
        self
    }
}

impl IntoStep for StepBuilder {
    open spec fn step_model(self) -> StepModel {
        self@
    }

    fn into_step(self) -> (step: Step) {
        self.build()
    }
}

impl From<StepBuilder> for Step {
    fn from(builder: StepBuilder) -> (step: Step) {
        builder.step
    }
}

impl FromSpecImpl<StepBuilder> for Step {
    open spec fn obeys_from_spec() -> bool {
        true
    }

    closed spec fn from_spec(builder: StepBuilder) -> Step {
        builder.step
    }
}

/// The step that a builder turns into is the step that it has built.
pub proof fn lemma_step_from_builder(builder: StepBuilder)
    ensures
        <Step as FromSpec<StepBuilder>>::from_spec(builder)@ == builder@,
{
}

} // verus!
