//! The failures of the pipeline. Each is a plain value; none carries the
//! cause that the runtime or the tracker reported.

use vstd::prelude::*;

verus! {

/// Why a model could not be made ready.
#[derive(Debug, Clone, Copy, PartialEq, Eq, Structural)]
pub enum ProvisionError {
    /// The runtime holds no model at all to derive one from.
    NoModelsAvailable,
    /// The runtime did not answer when asked for its models.
    RuntimeUnreachable,
    /// The base model's definition could not be read.
    IntrospectionFailed,
    /// The base model's definition lacks the line that is to be replaced.
    SubstitutionFailed,
    /// The derived definition could not be written.
    PersistFailed,
    /// The build stream broke off.
    BuildFailed,
}

/// Why a response could not be had.
#[derive(Debug, Clone, Copy, PartialEq, Eq, Structural)]
pub enum GenerationError {
    /// The connection failed before the stream was complete.
    TransportFailure,
}

/// Why an issue was not published.
#[derive(Debug, Clone, Copy, PartialEq, Eq, Structural)]
pub enum PublishError {
    /// The tracker refused the issue or could not be reached.
    Rejected,
}

/// A failure of any stage.
#[derive(Debug, Clone, Copy, PartialEq, Eq, Structural)]
pub enum PipelineError {
    /// The runtime holds no model: the operator has to fetch one first.
    Unavailable,
    /// Making the model ready failed otherwise.
    Provision(ProvisionError),
    /// The chat stream failed.
    Generation(GenerationError),
    /// The tracker did not take an issue.
    Publish(PublishError),
}

/// The pipeline failure that a provisioning failure amounts to.
pub open spec fn provision_failure(e: ProvisionError) -> PipelineError {
    match e {
        ProvisionError::NoModelsAvailable => PipelineError::Unavailable,
        _ => PipelineError::Provision(e),
    }
}

impl ProvisionError {
    /// What to tell the operator.
    pub fn message(&self) -> (text: &'static str)
        ensures
            text@ == match *self {
                ProvisionError::NoModelsAvailable => NO_MODELS@,
                ProvisionError::RuntimeUnreachable => UNREACHABLE@,
                ProvisionError::IntrospectionFailed => NO_DEFINITION@,
                ProvisionError::SubstitutionFailed => NO_SYSTEM_LINE@,
                ProvisionError::PersistFailed => NOT_WRITTEN@,
                ProvisionError::BuildFailed => NOT_BUILT@,
            },
    {
        match self {
            ProvisionError::NoModelsAvailable => NO_MODELS,
            ProvisionError::RuntimeUnreachable => UNREACHABLE,
            ProvisionError::IntrospectionFailed => NO_DEFINITION,
            ProvisionError::SubstitutionFailed => NO_SYSTEM_LINE,
            ProvisionError::PersistFailed => NOT_WRITTEN,
            ProvisionError::BuildFailed => NOT_BUILT,
        }
    }
}

pub const NO_MODELS: &'static str =
    "No models found. Run `ollama run [model_name]` in a terminal to download a model.";

pub const UNREACHABLE: &'static str = "The model runtime did not answer.";

pub const NO_DEFINITION: &'static str = "The definition of the base model could not be read.";

pub const NO_SYSTEM_LINE: &'static str =
    "The definition of the base model has no system line to replace.";

pub const NOT_WRITTEN: &'static str = "The model definition could not be written.";

pub const NOT_BUILT: &'static str = "The model could not be built.";

pub const NOT_STREAMED: &'static str = "The chat stream failed before it was complete.";

pub const NOT_PUBLISHED: &'static str = "The tracker did not take the issue.";

impl GenerationError {
    /// What to tell the operator.
    pub fn message(&self) -> (text: &'static str)
        ensures
            text@ == NOT_STREAMED@,
    {
        NOT_STREAMED
    }
}

impl PublishError {
    /// What to tell the operator.
    pub fn message(&self) -> (text: &'static str)
        ensures
            text@ == NOT_PUBLISHED@,
    {
        NOT_PUBLISHED
    }
}

impl PipelineError {
    /// What to tell the operator: the message of the failure inside.
    pub fn message(&self) -> (text: &'static str)
        ensures
            text@ == match *self {
                PipelineError::Unavailable => NO_MODELS@,
                PipelineError::Provision(ProvisionError::NoModelsAvailable) => NO_MODELS@,
                PipelineError::Provision(ProvisionError::RuntimeUnreachable) => UNREACHABLE@,
                PipelineError::Provision(ProvisionError::IntrospectionFailed) => NO_DEFINITION@,
                PipelineError::Provision(ProvisionError::SubstitutionFailed) => NO_SYSTEM_LINE@,
                PipelineError::Provision(ProvisionError::PersistFailed) => NOT_WRITTEN@,
                PipelineError::Provision(ProvisionError::BuildFailed) => NOT_BUILT@,
                PipelineError::Generation(_) => NOT_STREAMED@,
                PipelineError::Publish(_) => NOT_PUBLISHED@,
            },
    {
        match self {
            PipelineError::Unavailable => NO_MODELS,
            PipelineError::Provision(e) => e.message(),
            PipelineError::Generation(e) => e.message(),
            PipelineError::Publish(e) => e.message(),
        }
    }

    /// The pipeline failure that a provisioning failure amounts to.
    pub fn from_provision(e: ProvisionError) -> (r: PipelineError)
        ensures
            r == provision_failure(e),
    {
        match e {
            ProvisionError::NoModelsAvailable => PipelineError::Unavailable,
            _ => PipelineError::Provision(e),
        }
    }
}

} // verus!
