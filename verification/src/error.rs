//! Typed failures of the kernel.

use crate::compaction::{CompactionError, CompactionErrorModel};
use crate::model::Duplicate;
use crate::state::{RunId, ToolCallId};
use vstd::prelude::*;

verus! {

/// An operation that the current lifecycle state does not permit.
#[derive(Clone, Debug, Eq, PartialEq)]
pub struct StateTransitionError {
    /// State machine that refused the operation.
    pub entity: &'static str,
    /// State it was in.
    pub from: &'static str,
    /// Operation that was refused.
    pub operation: &'static str,
}

/// Model of a [`StateTransitionError`].
#[verifier::ext_equal]
pub struct TransitionModel {
    pub entity: Seq<char>,
    pub from: Seq<char>,
    pub operation: Seq<char>,
}

impl View for StateTransitionError {
    type V = TransitionModel;

    open spec fn view(&self) -> TransitionModel {
        TransitionModel {
            entity: self.entity@,
            from: self.from@,
            operation: self.operation@,
        }
    }
}

impl StateTransitionError {
    /// Name a refused operation.
    pub fn new(entity: &'static str, from: &'static str, operation: &'static str) -> (r: Self)
        ensures
            r@ == (TransitionModel { entity: entity@, from: from@, operation: operation@ }),
    {
        StateTransitionError { entity, from, operation }
    }
}

/// A policy hook that failed.
#[derive(Clone, Debug, Eq, PartialEq)]
pub struct HookError {
    /// Hook that failed.
    pub hook: &'static str,
    /// Host-supplied diagnostic.
    pub message: String,
}

impl HookError {
    /// Name a failed hook.
    pub fn new(hook: &'static str, message: String) -> (r: Self)
        ensures
            r.hook@ == hook@,
            r.message@ == message@,
    {
        HookError { hook, message }
    }
}

/// A tool invocation that produced no result.
#[derive(Clone, Debug, Eq, PartialEq)]
pub enum ToolError {
    /// The arguments do not fit the tool's schema.
    InvalidArguments { tool: String, message: String },
    /// The tool failed.
    Execution { tool: String, message: String },
    /// A policy refused the call.
    Blocked { tool: String, reason: String },
    /// The run was cancelled.
    Cancelled { tool: String },
}

/// Model of a [`ToolError`].
#[verifier::ext_equal]
pub enum ToolErrorModel {
    InvalidArguments { tool: Seq<char>, message: Seq<char> },
    Execution { tool: Seq<char>, message: Seq<char> },
    Blocked { tool: Seq<char>, reason: Seq<char> },
    Cancelled { tool: Seq<char> },
}

impl View for ToolError {
    type V = ToolErrorModel;

    open spec fn view(&self) -> ToolErrorModel {
        match *self {
            ToolError::InvalidArguments { tool, message } => ToolErrorModel::InvalidArguments {
                tool: tool@,
                message: message@,
            },
            ToolError::Execution { tool, message } => ToolErrorModel::Execution {
                tool: tool@,
                message: message@,
            },
            ToolError::Blocked { tool, reason } => ToolErrorModel::Blocked {
                tool: tool@,
                reason: reason@,
            },
            ToolError::Cancelled { tool } => ToolErrorModel::Cancelled { tool: tool@ },
        }
    }
}

impl ToolErrorModel {
    /// Text that a tool failure leaves in the conversation.
    pub open spec fn result_text(self) -> Seq<char> {
        match self {
            ToolErrorModel::InvalidArguments { message, .. } => message,
            ToolErrorModel::Execution { message, .. } => message,
            ToolErrorModel::Blocked { reason, .. } => reason,
            ToolErrorModel::Cancelled { .. } => "Operation aborted"@,
        }
    }
}

/// Text that a tool failure leaves in the conversation.
pub fn tool_error_message(error: ToolError) -> (r: String)
    ensures
        r@ == error@.result_text(),
{
    match error {
        ToolError::InvalidArguments { message, .. } => message,
        ToolError::Execution { message, .. } => message,
        ToolError::Blocked { reason, .. } => reason,
        ToolError::Cancelled { .. } => "Operation aborted".to_owned(),
    }
}

/// A completion that does not belong to its batch.
#[derive(Clone, Debug, Eq, PartialEq)]
pub enum SchedulerError {
    /// No planned call has this identifier.
    UnknownToolCall { tool_call_id: ToolCallId },
    /// The call already has a result.
    DuplicateCompletion { tool_call_id: ToolCallId },
}

/// A failed or refused agent operation.
#[derive(Clone, Debug, Eq, PartialEq)]
pub enum CoreError {
    /// Another run owns the agent.
    ActiveRun { run_id: RunId },
    /// The lifecycle does not permit the operation.
    InvalidTransition(StateTransitionError),
    /// The run already has a terminal outcome.
    RunFinished { run_id: RunId },
    /// No model provider was configured.
    MissingModelProvider,
    /// No compactor was configured.
    MissingCompactor,
    /// The provider failed before or during its stream.
    ModelProvider { message: String },
    /// The model response failed.
    ModelError { message: String },
    /// The model response was aborted.
    ModelAborted { message: String },
    /// The stream broke the provider event protocol.
    UnsupportedModelStream { message: String },
    /// A policy hook failed.
    Hook(HookError),
    /// A compaction failed.
    Compaction(CompactionError),
    /// The run was cancelled.
    Cancelled,
}

/// Model of a [`CoreError`].
#[verifier::ext_equal]
pub enum CoreErrorModel {
    ActiveRun { run_id: RunId },
    InvalidTransition(TransitionModel),
    RunFinished { run_id: RunId },
    MissingModelProvider,
    MissingCompactor,
    ModelProvider { message: Seq<char> },
    ModelError { message: Seq<char> },
    ModelAborted { message: Seq<char> },
    UnsupportedModelStream { message: Seq<char> },
    Hook { hook: Seq<char>, message: Seq<char> },
    Compaction(CompactionErrorModel),
    Cancelled,
}

impl View for CoreError {
    type V = CoreErrorModel;

    open spec fn view(&self) -> CoreErrorModel {
        match *self {
            CoreError::ActiveRun { run_id } => CoreErrorModel::ActiveRun { run_id },
            CoreError::InvalidTransition(error) => CoreErrorModel::InvalidTransition(error@),
            CoreError::RunFinished { run_id } => CoreErrorModel::RunFinished { run_id },
            CoreError::MissingModelProvider => CoreErrorModel::MissingModelProvider,
            CoreError::MissingCompactor => CoreErrorModel::MissingCompactor,
            CoreError::ModelProvider { message } => CoreErrorModel::ModelProvider {
                message: message@,
            },
            CoreError::ModelError { message } => CoreErrorModel::ModelError { message: message@ },
            CoreError::ModelAborted { message } => CoreErrorModel::ModelAborted {
                message: message@,
            },
            CoreError::UnsupportedModelStream { message } => {
                CoreErrorModel::UnsupportedModelStream { message: message@ }
            },
            CoreError::Hook(error) => CoreErrorModel::Hook {
                hook: error.hook@,
                message: error.message@,
            },
            CoreError::Compaction(error) => CoreErrorModel::Compaction(error@),
            CoreError::Cancelled => CoreErrorModel::Cancelled,
        }
    }
}

impl Duplicate for CoreError {
    fn duplicate(&self) -> (r: Self) {
        match self {
            CoreError::ActiveRun { run_id } => CoreError::ActiveRun { run_id: *run_id },
            CoreError::InvalidTransition(error) => CoreError::InvalidTransition(
                StateTransitionError {
                    entity: error.entity,
                    from: error.from,
                    operation: error.operation,
                },
            ),
            CoreError::RunFinished { run_id } => CoreError::RunFinished { run_id: *run_id },
            CoreError::MissingModelProvider => CoreError::MissingModelProvider,
            CoreError::MissingCompactor => CoreError::MissingCompactor,
            CoreError::ModelProvider { message } => CoreError::ModelProvider {
                message: message.clone(),
            },
            CoreError::ModelError { message } => CoreError::ModelError {
                message: message.clone(),
            },
            CoreError::ModelAborted { message } => CoreError::ModelAborted {
                message: message.clone(),
            },
            CoreError::UnsupportedModelStream { message } => CoreError::UnsupportedModelStream {
                message: message.clone(),
            },
            CoreError::Hook(error) => CoreError::Hook(
                HookError { hook: error.hook, message: error.message.clone() },
            ),
            CoreError::Compaction(error) => CoreError::Compaction(error.duplicate()),
            CoreError::Cancelled => CoreError::Cancelled,
        }
    }
}

impl CoreErrorModel {
    /// Diagnostic text of a failure.
    pub open spec fn text(self) -> Seq<char> {
        match self {
            CoreErrorModel::ActiveRun { run_id } => "agent already has active run "@
                + run_id.spec_text(),
            CoreErrorModel::InvalidTransition(error) => "invalid "@ + error.entity
                + " transition from "@ + error.from + " during "@ + error.operation,
            CoreErrorModel::RunFinished { run_id } => run_id.spec_text() + " already finished"@,
            CoreErrorModel::MissingModelProvider => "no model provider is configured"@,
            CoreErrorModel::MissingCompactor => "no compactor is configured"@,
            CoreErrorModel::ModelProvider { message } => "model provider failed: "@ + message,
            CoreErrorModel::ModelError { message } => "model response failed: "@ + message,
            CoreErrorModel::ModelAborted { message } => "model response was aborted: "@ + message,
            CoreErrorModel::UnsupportedModelStream { message } => "unsupported model stream: "@
                + message,
            CoreErrorModel::Hook { hook, message } => hook + " hook failed: "@ + message,
            CoreErrorModel::Compaction(error) => error.text(),
            CoreErrorModel::Cancelled => "run was cancelled"@,
        }
    }
}

fn prefixed(prefix: &str, message: &str) -> (r: String)
    ensures
        r@ == prefix@ + message@,
{
    let mut out = prefix.to_owned();
    out.push_str(message);
    out
}

impl CoreError {
    /// Diagnostic text of this failure.
    pub fn text(&self) -> (r: String)
        ensures
            r@ == self@.text(),
    {
        match self {
            CoreError::ActiveRun { run_id } => prefixed(
                "agent already has active run ",
                run_id.text().as_str(),
            ),
            CoreError::InvalidTransition(error) => {
                let mut out = prefixed("invalid ", error.entity);
                out.push_str(" transition from ");
                out.push_str(error.from);
                out.push_str(" during ");
                out.push_str(error.operation);
                out
            },
            CoreError::RunFinished { run_id } => prefixed(
                run_id.text().as_str(),
                " already finished",
            ),
            CoreError::MissingModelProvider => "no model provider is configured".to_owned(),
            CoreError::MissingCompactor => "no compactor is configured".to_owned(),
            CoreError::ModelProvider { message } => prefixed(
                "model provider failed: ",
                message.as_str(),
            ),
            CoreError::ModelError { message } => prefixed(
                "model response failed: ",
                message.as_str(),
            ),
            CoreError::ModelAborted { message } => prefixed(
                "model response was aborted: ",
                message.as_str(),
            ),
            CoreError::UnsupportedModelStream { message } => prefixed(
                "unsupported model stream: ",
                message.as_str(),
            ),
            CoreError::Hook(error) => {
                let mut out = prefixed(error.hook, " hook failed: ");
                out.push_str(error.message.as_str());
                out
            },
            CoreError::Compaction(error) => error.text(),
            CoreError::Cancelled => "run was cancelled".to_owned(),
        }
    }
}

} // verus!
