//! The ways in which a workflow can fail, and how each is reported.

use vstd::prelude::*;
use vstd::string::StringExecFns;

verus! {

/// Why a step's call did not yield a result.
#[derive(Debug, PartialEq, Eq)]
pub enum Cause {
    /// The service answered, and its answer reports a failure with this
    /// message.
    Reported(String),
    /// The call could not be completed; the text says why.
    Unreachable(String),
}

/// An error that ends a workflow. Every error is fatal to the run.
#[derive(Debug, PartialEq, Eq)]
pub enum Error {
    /// The workflow has an empty name.
    EmptyName,
    /// The workflow has no steps.
    NoSteps,
    /// The step at `index` names no service.
    EmptyService { index: usize },
    /// The step at `index` names no method.
    EmptyMethod { index: usize },
    /// A template could not be rendered.
    TemplateRender { template: String, reason: String },
    /// The call of the step at `index` failed.
    StepExecution { index: usize, service: String, method: String, cause: Cause },
}

/// The mathematical content of an [`Error`].
pub enum Failure {
    EmptyName,
    NoSteps,
    EmptyService { index: nat },
    EmptyMethod { index: nat },
    TemplateRender { template: Seq<char>, reason: Seq<char> },
    StepReported { index: nat, service: Seq<char>, method: Seq<char>, message: Seq<char> },
    StepUnreachable { index: nat, service: Seq<char>, method: Seq<char>, reason: Seq<char> },
}

impl View for Error {
    type V = Failure;

    open spec fn view(&self) -> Failure {
        match self {
            Error::EmptyName => Failure::EmptyName,
            Error::NoSteps => Failure::NoSteps,
            Error::EmptyService { index } => Failure::EmptyService { index: *index as nat },
            Error::EmptyMethod { index } => Failure::EmptyMethod { index: *index as nat },
            Error::TemplateRender { template, reason } => Failure::TemplateRender {
                template: template@,
                reason: reason@,
            },
            Error::StepExecution { index, service, method, cause } => match cause {
                Cause::Reported(message) => Failure::StepReported {
                    index: *index as nat,
                    service: service@,
                    method: method@,
                    message: message@,
                },
                Cause::Unreachable(reason) => Failure::StepUnreachable {
                    index: *index as nat,
                    service: service@,
                    method: method@,
                    reason: reason@,
                },
            },
        }
    }
}

/// The character that stands for a digit.
pub open spec fn digit(d: nat) -> char {
    if d == 0 {
        '0'
    } else if d == 1 {
        '1'
    } else if d == 2 {
        '2'
    } else if d == 3 {
        '3'
    } else if d == 4 {
        '4'
    } else if d == 5 {
        '5'
    } else if d == 6 {
        '6'
    } else if d == 7 {
        '7'
    } else if d == 8 {
        '8'
    } else {
        '9'
    }
}

/// A number in decimal notation, without leading zeros.
pub open spec fn decimal(n: nat) -> Seq<char>
    decreases n,
{
    if n < 10 {
        seq![digit(n)]
    } else {
        decimal(n / 10).push(digit(n % 10))
    }
}

/// The words that name a step in a message: its index, then its service and
/// method in brackets.
pub open spec fn step_label(index: nat, service: Seq<char>, method: Seq<char>) -> Seq<char> {
    "Step "@ + decimal(index) + " ("@ + service + "."@ + method + ")"@
}

impl Failure {
    /// The message that reports this failure.
    pub open spec fn message(self) -> Seq<char> {
        match self {
            Failure::EmptyName => "Workflow name cannot be empty"@,
            Failure::NoSteps => "Workflow must have at least one step"@,
            Failure::EmptyService { index } => "Step "@ + decimal(index)
                + " has empty service name"@,
            Failure::EmptyMethod { index } => "Step "@ + decimal(index)
                + " has empty method name"@,
            Failure::TemplateRender { template, reason } => "Failed to render template '"@
                + template + "': "@ + reason,
            Failure::StepReported { index, service, method, message } => step_label(
                index,
                service,
                method,
            ) + " returned error: "@ + message,
            Failure::StepUnreachable { index, service, method, reason } => step_label(
                index,
                service,
                method,
            ) + " failed: "@ + reason,
        }
    }
}

fn digit_text(d: usize) -> (text: &'static str)
    requires
        d < 10,
    ensures
        text@ == seq![digit(d as nat)],
{
    proof {
        reveal_strlit("0");
        reveal_strlit("1");
        reveal_strlit("2");
        reveal_strlit("3");
        reveal_strlit("4");
        reveal_strlit("5");
        reveal_strlit("6");
        reveal_strlit("7");
        reveal_strlit("8");
        reveal_strlit("9");
    }
    let text = if d == 0 {
        "0"
    } else if d == 1 {
        "1"
    } else if d == 2 {
        "2"
    } else if d == 3 {
        "3"
    } else if d == 4 {
        "4"
    } else if d == 5 {
        "5"
    } else if d == 6 {
        "6"
    } else if d == 7 {
        "7"
    } else if d == 8 {
        "8"
    } else {
        "9"
    };
    assert(text@ =~= seq![digit(d as nat)]);
    text
}

/// Writes a number in decimal notation.
pub fn decimal_text(n: usize) -> (text: String)
    ensures
        text@ == decimal(n as nat),
    decreases n,
{
    if n < 10 {
        digit_text(n).to_owned()
    } else {
        let mut text = decimal_text(n / 10);
        text.append(digit_text(n % 10));
        assert(text@ =~= decimal(n as nat));
        text
    }
}

fn step_label_text(index: usize, service: &String, method: &String) -> (text: String)
    ensures
        text@ == step_label(index as nat, service@, method@),
{
    let mut text = "Step ".to_owned();
    text.append(decimal_text(index).as_str());
    text.append(" (");
    text.append(service.as_str());
    text.append(".");
    text.append(method.as_str());
    text.append(")");
    text
}

impl Error {
    /// The message that reports this error.
    pub fn message(&self) -> (text: String)
        ensures
            text@ == self@.message(),
    {
        match self {
            Error::EmptyName => "Workflow name cannot be empty".to_owned(),
            Error::NoSteps => "Workflow must have at least one step".to_owned(),
            Error::EmptyService { index } => {
                let mut text = "Step ".to_owned();
                text.append(decimal_text(*index).as_str());
                text.append(" has empty service name");
                text
            },
            Error::EmptyMethod { index } => {
                let mut text = "Step ".to_owned();
                text.append(decimal_text(*index).as_str());
                text.append(" has empty method name");
                text
            },
            Error::TemplateRender { template, reason } => {
                let mut text = "Failed to render template '".to_owned();
                text.append(template.as_str());
                text.append("': ");
                text.append(reason.as_str());
                text
            },
            Error::StepExecution { index, service, method, cause } => {
                let mut text = step_label_text(*index, service, method);
                match cause {
                    Cause::Reported(message) => {
                        text.append(" returned error: ");
                        text.append(message.as_str());
                    },
                    Cause::Unreachable(reason) => {
                        text.append(" failed: ");
                        text.append(reason.as_str());
                    },
                }
                text
            },
        }
    }
}

} // verus!
