//! Typed policy decisions around tool execution and context preparation.
//!
//! Hooks influence a run only through explicit return values. They never mutate agent state
//! directly, and hook failures remain typed.

use crate::debug::{debug_lines, transcript_text};
use crate::error::HookError;
use crate::model::{duplicate_all, Duplicate};
use crate::state::{
    Message, MessageModel, ModelDescriptor, ModelDescriptorModel, SerializedJson, ThinkingLevel,
    Usage, UsageModel,
};
use crate::tool::{ToolCall, ToolResult, ToolResultModel};
use vstd::prelude::*;

verus! {

broadcast use crate::model::group_views;

/// Decision made before a tool is executed.
#[derive(Clone, Debug, Eq, PartialEq)]
pub enum BeforeToolCall {
    /// Proceed with execution.
    Allow,
    /// Convert the call into an error tool result.
    Block { reason: String },
    /// End the current run after recording the policy reason.
    Terminate { reason: String },
}

/// Model of a [`BeforeToolCall`].
#[verifier::ext_equal]
pub enum BeforeModel {
    Allow,
    Block { reason: Seq<char> },
    Terminate { reason: Seq<char> },
}

impl View for BeforeToolCall {
    type V = BeforeModel;

    open spec fn view(&self) -> BeforeModel {
        match *self {
            BeforeToolCall::Allow => BeforeModel::Allow,
            BeforeToolCall::Block { reason } => BeforeModel::Block { reason: reason@ },
            BeforeToolCall::Terminate { reason } => BeforeModel::Terminate { reason: reason@ },
        }
    }
}

/// Optional replacement for one result field.
#[derive(Clone, Debug, Eq, PartialEq)]
pub enum Replacement<T> {
    /// Leave the value produced by the tool unchanged.
    Keep,
    /// Replace the value completely.
    Replace(T),
}

impl<T> Default for Replacement<T> {
    fn default() -> (r: Self)
        ensures
            r == Replacement::<T>::Keep,
    {
        Replacement::Keep
    }
}

/// Changes an after-tool hook may make, with replacement rather than recursive merge semantics.
#[derive(Clone, Debug, Eq, PartialEq)]
pub struct AfterToolCall {
    /// Content replacement.
    pub content: Replacement<String>,
    /// Details replacement.
    pub details: Replacement<Option<SerializedJson>>,
    /// Error-flag replacement.
    pub is_error: Replacement<bool>,
    /// Usage replacement for providers that attach usage to tool results.
    pub usage: Replacement<Usage>,
    /// Replacement of the names of added capabilities.
    pub added_tool_names: Replacement<Vec<String>>,
    /// Optional replacement for the batch early-termination hint.
    ///
    /// Every finalized call in a batch must request termination before the next model turn is
    /// suppressed.
    pub terminate: Option<bool>,
}

/// Model of an [`AfterToolCall`].
#[verifier::ext_equal]
pub struct AfterModel {
    pub content: Replacement<Seq<char>>,
    pub details: Replacement<Option<Seq<char>>>,
    pub is_error: Replacement<bool>,
    pub usage: Replacement<UsageModel>,
    pub added_tool_names: Replacement<Seq<Seq<char>>>,
    pub terminate: Option<bool>,
}

impl View for AfterToolCall {
    type V = AfterModel;

    open spec fn view(&self) -> AfterModel {
        AfterModel {
            content: match self.content {
                Replacement::Keep => Replacement::Keep,
                Replacement::Replace(content) => Replacement::Replace(content@),
            },
            details: match self.details {
                Replacement::Keep => Replacement::Keep,
                Replacement::Replace(details) => Replacement::Replace(
                    crate::model::opt_view(details),
                ),
            },
            is_error: self.is_error,
            usage: match self.usage {
                Replacement::Keep => Replacement::Keep,
                Replacement::Replace(usage) => Replacement::Replace(usage@),
            },
            added_tool_names: match self.added_tool_names {
                Replacement::Keep => Replacement::Keep,
                Replacement::Replace(names) => Replacement::Replace(crate::model::views(names@)),
            },
            terminate: self.terminate,
        }
    }
}

impl AfterModel {
    /// No change.
    pub open spec fn keep_all() -> AfterModel {
        AfterModel {
            content: Replacement::Keep,
            details: Replacement::Keep,
            is_error: Replacement::Keep,
            usage: Replacement::Keep,
            added_tool_names: Replacement::Keep,
            terminate: None,
        }
    }

    /// A result with the replaced fields replaced.
    pub open spec fn applied(self, result: ToolResultModel) -> ToolResultModel {
        ToolResultModel {
            tool_call_id: result.tool_call_id,
            content: match self.content {
                Replacement::Keep => result.content,
                Replacement::Replace(content) => content,
            },
            details: match self.details {
                Replacement::Keep => result.details,
                Replacement::Replace(details) => details,
            },
            usage: match self.usage {
                Replacement::Keep => result.usage,
                Replacement::Replace(usage) => Some(usage),
            },
            added_tool_names: match self.added_tool_names {
                Replacement::Keep => result.added_tool_names,
                Replacement::Replace(names) => names,
            },
            terminate: match self.terminate {
                None => result.terminate,
                Some(terminate) => terminate,
            },
            is_error: match self.is_error {
                Replacement::Keep => result.is_error,
                Replacement::Replace(is_error) => is_error,
            },
        }
    }
}

impl Default for AfterToolCall {
    fn default() -> (r: Self)
        ensures
            r@ == AfterModel::keep_all(),
    {
        AfterToolCall {
            content: Replacement::Keep,
            details: Replacement::Keep,
            is_error: Replacement::Keep,
            usage: Replacement::Keep,
            added_tool_names: Replacement::Keep,
            terminate: None,
        }
    }
}

/// Apply the replacements of an after-tool hook.
pub fn apply_after_tool_call(result: &mut ToolResult, after: AfterToolCall)
    ensures
        final(result)@ == after@.applied(old(result)@),
{
    if let Replacement::Replace(content) = after.content {
        result.content = content;
    }
    if let Replacement::Replace(details) = after.details {
        result.details = details;
    }
    if let Replacement::Replace(usage) = after.usage {
        result.usage = Some(usage);
    }
    if let Replacement::Replace(added_tool_names) = after.added_tool_names {
        result.added_tool_names = added_tool_names;
    }
    if let Some(terminate) = after.terminate {
        result.terminate = terminate;
    }
    if let Replacement::Replace(is_error) = after.is_error {
        result.is_error = is_error;
    }
}

/// An after-tool hook that keeps everything leaves the result as the tool produced it.
pub proof fn law_keeping_hook_changes_nothing(result: ToolResultModel)
    ensures
        AfterModel::keep_all().applied(result) == result,
{
}

/// Versioned host-message envelope passed through context hooks.
#[derive(Clone, Debug, Eq, PartialEq)]
pub struct ContextEnvelope {
    /// Version of this host extension envelope.
    pub version: u16,
    /// Messages retained by the core.
    pub messages: Vec<Message>,
    /// Optional serialized host-only additions.
    pub host_messages: Vec<SerializedJson>,
}

/// Model of a [`ContextEnvelope`].
#[verifier::ext_equal]
pub struct ContextModel {
    pub version: u16,
    pub messages: Seq<MessageModel>,
    pub host_messages: Seq<Seq<char>>,
}

impl View for ContextEnvelope {
    type V = ContextModel;

    open spec fn view(&self) -> ContextModel {
        ContextModel {
            version: self.version,
            messages: crate::model::views(self.messages@),
            host_messages: crate::model::views(self.host_messages@),
        }
    }
}

impl Duplicate for ContextEnvelope {
    fn duplicate(&self) -> (r: Self) {
        ContextEnvelope {
            version: self.version,
            messages: duplicate_all(&self.messages),
            host_messages: duplicate_all(&self.host_messages),
        }
    }
}

/// Replacements a host prepares for the next turn of a run.
#[derive(Clone, Debug, Eq, PartialEq)]
pub struct NextTurn {
    /// Context replacement.
    pub context: Option<ContextEnvelope>,
    /// Model replacement for the rest of the run.
    pub model: Option<ModelDescriptor>,
    /// Reasoning-level replacement for the rest of the run.
    pub thinking_level: Option<ThinkingLevel>,
}

/// Model of a [`NextTurn`].
#[verifier::ext_equal]
pub struct NextTurnModel {
    pub context: Option<ContextModel>,
    pub model: Option<ModelDescriptorModel>,
    pub thinking_level: Option<ThinkingLevel>,
}

impl View for NextTurn {
    type V = NextTurnModel;

    open spec fn view(&self) -> NextTurnModel {
        NextTurnModel {
            context: crate::model::opt_view(self.context),
            model: crate::model::opt_view(self.model),
            thinking_level: self.thinking_level,
        }
    }
}

impl Default for NextTurn {
    fn default() -> (r: Self)
        ensures
            r@ == (NextTurnModel { context: None, model: None, thinking_level: None }),
    {
        NextTurn { context: None, model: None, thinking_level: None }
    }
}

/// Host policy at the boundaries of a run.
///
/// Implementations belong to the host, and nothing is presumed of them.
pub trait HookSet {
    /// Decide whether one tool call may execute.
    fn before_tool_call(&self, call: &ToolCall) -> Result<BeforeToolCall, HookError>;

    /// Replace selected fields after execution.
    fn after_tool_call(&self, call: &ToolCall, result: &ToolResult) -> Result<
        AfterToolCall,
        HookError,
    >;

    /// Transform retained context before conversion to provider messages.
    fn transform_context(&self, context: ContextEnvelope) -> Result<ContextEnvelope, HookError>;

    /// Convert the host envelope into the provider's serialized context format.
    fn convert_to_llm(&self, context: ContextEnvelope) -> Result<String, HookError>;

    /// Decide whether the run should stop after the turn. By default it goes on.
    fn should_stop_after_turn(&self, context: &ContextEnvelope) -> (r: Result<bool, HookError>)
        default_ensures
            r matches Ok(stop) && !stop,
    {
        Ok(false)
    }

    /// Prepare the next turn. By default nothing is replaced.
    fn prepare_next_turn(&self, context: ContextEnvelope) -> (r: Result<NextTurn, HookError>)
        default_ensures
            r matches Ok(next) && next@ == (NextTurnModel {
                context: None,
                model: None,
                thinking_level: None,
            }),
    {
        Ok(NextTurn::default())
    }
}

/// Hooks that change nothing, suitable as the default.
#[derive(Clone, Copy, Debug)]
pub struct NoHooks;

impl Default for NoHooks {
    fn default() -> (r: Self)
        ensures
            r == NoHooks,
    {
        NoHooks
    }
}

impl HookSet for NoHooks {
    fn before_tool_call(&self, call: &ToolCall) -> (r: Result<BeforeToolCall, HookError>)
        ensures
            r matches Ok(decision) && decision is Allow,
    {
        Ok(BeforeToolCall::Allow)
    }

    fn after_tool_call(&self, call: &ToolCall, result: &ToolResult) -> (r: Result<
        AfterToolCall,
        HookError,
    >)
        ensures
            r matches Ok(after) && after@ == AfterModel::keep_all(),
    {
        Ok(AfterToolCall::default())
    }

    fn transform_context(&self, context: ContextEnvelope) -> (r: Result<ContextEnvelope, HookError>)
        ensures
            r matches Ok(kept) && kept@ == context@,
    {
        Ok(context)
    }

    fn convert_to_llm(&self, context: ContextEnvelope) -> (r: Result<String, HookError>)
        ensures
            r matches Ok(text) && text@ == debug_lines(context@.messages),
    {
        Ok(transcript_text(&context.messages))
    }
}

} // verus!
