//! Lifecycle events.
//!
//! The run loop first settles state, then emits the corresponding event, in this order:
//! `agent_start → turn_start → message* / tool_execution* → turn_end → agent_end`.

use crate::model::{duplicate_all, duplicate_opt, Duplicate};
use crate::state::{
    Message, MessageModel, ModelTurnAccounting, RunId, SerializedJson, StopReason, ToolCallId,
    TurnAccountingModel, TurnId, Usage, UsageModel,
};
use crate::tool::{ToolResult, ToolResultModel, ToolUpdate, ToolUpdateModel};
use vstd::prelude::*;

verus! {

broadcast use crate::model::group_views;

/// Monotonic sequence assigned by one run.
#[derive(Clone, Copy, Debug, Eq, Ord, PartialEq, PartialOrd, Hash, Structural)]
pub struct EventSequence(pub u64);

/// An event envelope with stable run identity and local ordering.
#[derive(Clone, Debug, Eq, PartialEq)]
pub struct AgentEvent {
    /// Run that emitted the event.
    pub run_id: RunId,
    /// Sequence within that run.
    pub sequence: EventSequence,
    /// Event payload.
    pub kind: AgentEventKind,
}

/// How a compaction ended.
#[derive(Clone, Debug, Eq, PartialEq)]
pub enum CompactionOutcome {
    /// The replacement was committed.
    Succeeded { retained_message_count: usize },
    /// The compactor failed or proposed an invalid replacement.
    Failed { message: String },
    /// The compaction was cancelled.
    Cancelled,
}

/// Model of a [`CompactionOutcome`].
#[verifier::ext_equal]
pub enum OutcomeModel {
    Succeeded { retained_message_count: usize },
    Failed { message: Seq<char> },
    Cancelled,
}

impl View for CompactionOutcome {
    type V = OutcomeModel;

    open spec fn view(&self) -> OutcomeModel {
        match *self {
            CompactionOutcome::Succeeded { retained_message_count } => OutcomeModel::Succeeded {
                retained_message_count,
            },
            CompactionOutcome::Failed { message } => OutcomeModel::Failed { message: message@ },
            CompactionOutcome::Cancelled => OutcomeModel::Cancelled,
        }
    }
}

impl Duplicate for CompactionOutcome {
    fn duplicate(&self) -> (r: Self) {
        match self {
            CompactionOutcome::Succeeded { retained_message_count } => {
                CompactionOutcome::Succeeded { retained_message_count: *retained_message_count }
            },
            CompactionOutcome::Failed { message } => CompactionOutcome::Failed {
                message: message.clone(),
            },
            CompactionOutcome::Cancelled => CompactionOutcome::Cancelled,
        }
    }
}

/// Meaningful lifecycle payloads emitted by the core.
#[derive(Clone, Debug, Eq, PartialEq)]
pub enum AgentEventKind {
    /// Run ownership began.
    AgentStart,
    /// A model turn began.
    TurnStart { turn_id: TurnId },
    /// A message became visible.
    MessageStart { message: Message },
    /// A partial message update.
    ///
    /// `text_delta` is the provider event payload, while `message` is the reduced assistant
    /// snapshot after that delta. Keeping both spares an observer from diffing snapshots.
    MessageUpdate {
        /// Reduced message snapshot after this update.
        message: Message,
        /// Exact text fragment delivered by the stream event.
        text_delta: Option<String>,
    },
    /// A message settled.
    MessageEnd { message: Message },
    /// Tool execution began.
    ToolExecutionStart {
        tool_call_id: ToolCallId,
        tool_name: String,
        /// Exact serialized JSON arguments supplied by the model.
        ///
        /// This is emitted before validation, hooks, or capability dispatch.
        arguments: SerializedJson,
    },
    /// Tool emitted a partial update.
    ToolExecutionUpdate {
        /// Call that produced the partial update.
        tool_call_id: ToolCallId,
        /// Stable tool name for the update's executable capability.
        tool_name: String,
        /// Partial result supplied by the tool.
        update: ToolUpdate,
    },
    /// Tool execution settled.
    ToolExecutionEnd { tool_call_id: ToolCallId, tool_name: String, result: ToolResult },
    /// A model turn reported its usage.
    ModelTurnUsage { accounting: ModelTurnAccounting },
    /// A model turn settled.
    TurnEnd { turn_id: TurnId, reason: StopReason },
    /// The loop emitted its final event. Awaited observers may still keep the agent active
    /// before terminal settlement makes it idle.
    AgentEnd { messages: Vec<Message> },
    /// A manual compaction began.
    CompactionStart { source_message_count: usize },
    /// A compaction replaced the transcript.
    CompactionResult { retained_message_count: usize, usage: Option<Usage> },
    /// A compaction settled.
    CompactionEnd { outcome: CompactionOutcome },
}

/// Model of an [`AgentEventKind`].
#[verifier::ext_equal]
pub enum EventKindModel {
    AgentStart,
    TurnStart { turn_id: TurnId },
    MessageStart { message: MessageModel },
    MessageUpdate { message: MessageModel, text_delta: Option<Seq<char>> },
    MessageEnd { message: MessageModel },
    ToolExecutionStart { tool_call_id: Seq<char>, tool_name: Seq<char>, arguments: Seq<char> },
    ToolExecutionUpdate {
        tool_call_id: Seq<char>,
        tool_name: Seq<char>,
        update: ToolUpdateModel,
    },
    ToolExecutionEnd { tool_call_id: Seq<char>, tool_name: Seq<char>, result: ToolResultModel },
    ModelTurnUsage { accounting: TurnAccountingModel },
    TurnEnd { turn_id: TurnId, reason: StopReason },
    AgentEnd { messages: Seq<MessageModel> },
    CompactionStart { source_message_count: usize },
    CompactionResult { retained_message_count: usize, usage: Option<UsageModel> },
    CompactionEnd { outcome: OutcomeModel },
}

impl View for AgentEventKind {
    type V = EventKindModel;

    open spec fn view(&self) -> EventKindModel {
        match *self {
            AgentEventKind::AgentStart => EventKindModel::AgentStart,
            AgentEventKind::TurnStart { turn_id } => EventKindModel::TurnStart { turn_id },
            AgentEventKind::MessageStart { message } => EventKindModel::MessageStart {
                message: message@,
            },
            AgentEventKind::MessageUpdate { message, text_delta } => {
                EventKindModel::MessageUpdate {
                    message: message@,
                    text_delta: crate::model::opt_view(text_delta),
                }
            },
            AgentEventKind::MessageEnd { message } => EventKindModel::MessageEnd {
                message: message@,
            },
            AgentEventKind::ToolExecutionStart { tool_call_id, tool_name, arguments } => {
                EventKindModel::ToolExecutionStart {
                    tool_call_id: tool_call_id@,
                    tool_name: tool_name@,
                    arguments: arguments@,
                }
            },
            AgentEventKind::ToolExecutionUpdate { tool_call_id, tool_name, update } => {
                EventKindModel::ToolExecutionUpdate {
                    tool_call_id: tool_call_id@,
                    tool_name: tool_name@,
                    update: update@,
                }
            },
            AgentEventKind::ToolExecutionEnd { tool_call_id, tool_name, result } => {
                EventKindModel::ToolExecutionEnd {
                    tool_call_id: tool_call_id@,
                    tool_name: tool_name@,
                    result: result@,
                }
            },
            AgentEventKind::ModelTurnUsage { accounting } => EventKindModel::ModelTurnUsage {
                accounting: accounting@,
            },
            AgentEventKind::TurnEnd { turn_id, reason } => EventKindModel::TurnEnd {
                turn_id,
                reason,
            },
            AgentEventKind::AgentEnd { messages } => EventKindModel::AgentEnd {
                messages: crate::model::views(messages@),
            },
            AgentEventKind::CompactionStart { source_message_count } => {
                EventKindModel::CompactionStart { source_message_count }
            },
            AgentEventKind::CompactionResult { retained_message_count, usage } => {
                EventKindModel::CompactionResult {
                    retained_message_count,
                    usage: crate::model::opt_view(usage),
                }
            },
            AgentEventKind::CompactionEnd { outcome } => EventKindModel::CompactionEnd {
                outcome: outcome@,
            },
        }
    }
}

impl Duplicate for AgentEventKind {
    fn duplicate(&self) -> (r: Self) {
        match self {
            AgentEventKind::AgentStart => AgentEventKind::AgentStart,
            AgentEventKind::TurnStart { turn_id } => AgentEventKind::TurnStart {
                turn_id: *turn_id,
            },
            AgentEventKind::MessageStart { message } => AgentEventKind::MessageStart {
                message: message.duplicate(),
            },
            AgentEventKind::MessageUpdate { message, text_delta } => {
                AgentEventKind::MessageUpdate {
                    message: message.duplicate(),
                    text_delta: duplicate_opt(text_delta),
                }
            },
            AgentEventKind::MessageEnd { message } => AgentEventKind::MessageEnd {
                message: message.duplicate(),
            },
            AgentEventKind::ToolExecutionStart { tool_call_id, tool_name, arguments } => {
                AgentEventKind::ToolExecutionStart {
                    tool_call_id: tool_call_id.duplicate(),
                    tool_name: tool_name.clone(),
                    arguments: arguments.duplicate(),
                }
            },
            AgentEventKind::ToolExecutionUpdate { tool_call_id, tool_name, update } => {
                AgentEventKind::ToolExecutionUpdate {
                    tool_call_id: tool_call_id.duplicate(),
                    tool_name: tool_name.clone(),
                    update: update.duplicate(),
                }
            },
            AgentEventKind::ToolExecutionEnd { tool_call_id, tool_name, result } => {
                AgentEventKind::ToolExecutionEnd {
                    tool_call_id: tool_call_id.duplicate(),
                    tool_name: tool_name.clone(),
                    result: result.duplicate(),
                }
            },
            AgentEventKind::ModelTurnUsage { accounting } => AgentEventKind::ModelTurnUsage {
                accounting: accounting.duplicate(),
            },
            AgentEventKind::TurnEnd { turn_id, reason } => AgentEventKind::TurnEnd {
                turn_id: *turn_id,
                reason: *reason,
            },
            AgentEventKind::AgentEnd { messages } => AgentEventKind::AgentEnd {
                messages: duplicate_all(messages),
            },
            AgentEventKind::CompactionStart { source_message_count } => {
                AgentEventKind::CompactionStart { source_message_count: *source_message_count }
            },
            AgentEventKind::CompactionResult { retained_message_count, usage } => {
                AgentEventKind::CompactionResult {
                    retained_message_count: *retained_message_count,
                    usage: duplicate_opt(usage),
                }
            },
            AgentEventKind::CompactionEnd { outcome } => AgentEventKind::CompactionEnd {
                outcome: outcome.duplicate(),
            },
        }
    }
}

/// Model of an [`AgentEvent`].
#[verifier::ext_equal]
pub struct EventModel {
    pub run_id: RunId,
    pub sequence: EventSequence,
    pub kind: EventKindModel,
}

impl View for AgentEvent {
    type V = EventModel;

    open spec fn view(&self) -> EventModel {
        EventModel { run_id: self.run_id, sequence: self.sequence, kind: self.kind@ }
    }
}

impl Duplicate for AgentEvent {
    fn duplicate(&self) -> (r: Self) {
        AgentEvent {
            run_id: self.run_id,
            sequence: self.sequence,
            kind: self.kind.duplicate(),
        }
    }
}

/// An owned event collection useful for deterministic providers and tests.
#[derive(Clone, Debug)]
pub struct EventLog {
    events: Vec<AgentEvent>,
}

impl View for EventLog {
    type V = Seq<EventModel>;

    closed spec fn view(&self) -> Seq<EventModel> {
        crate::model::views(self.events@)
    }
}

impl Default for EventLog {
    fn default() -> (r: Self)
        ensures
            r@ == Seq::<EventModel>::empty(),
    {
        EventLog { events: Vec::new() }
    }
}

impl EventLog {
    /// Append one event in sequence order.
    pub fn push(&mut self, event: AgentEvent)
        ensures
            final(self)@ == old(self)@.push(event@),
    {
        self.events.push(event);
    }

    /// Borrow the ordered event view.
    pub fn as_slice(&self) -> (r: &[AgentEvent])
        ensures
            crate::model::views(r@) == self@,
    {
        self.events.as_slice()
    }

    /// Consume the log into owned events.
    pub fn into_events(self) -> (r: Vec<AgentEvent>)
        ensures
            crate::model::views(r@) == self@,
    {
        self.events
    }
}

} // verus!
