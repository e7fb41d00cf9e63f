//! Workflow composition for daemon services.
//!
//! A workflow is a short, ordered list of remote calls. Each call's
//! parameters may refer to the results of earlier calls through templates,
//! which are expanded immediately before the call is made:
//!
//! * [`value`] holds the data model: structured values and records.
//! * [`context`] holds the variable store of a run.
//! * [`template`] expands the templates in a value over a scope.
//! * [`step`] and [`workflow`] hold the definitions and their builders, and
//!   the check that a workflow may run.
//! * [`executor`] decides, between one call and the next, what a run does.
//! * [`error`] holds the ways in which a run can fail.

pub mod context;
pub mod error;
pub mod executor;
pub mod step;
pub mod template;
pub mod value;
pub mod workflow;

pub use context::Context;
pub use error::{Cause, Error};
pub use executor::{
    ErrorInfo, Execution, ExecutionResult, Finished, Pending, Response, StepResult, Turn,
};
pub use step::{IntoStep, Step, StepBuilder};
pub use value::{Entry, IntoJson, Json, JsonNumber};
pub use workflow::{validate, Workflow, WorkflowBuilder};
