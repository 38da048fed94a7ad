//! The transition function of a run.
//!
//! A run is a state machine: it waits at a [`Point`] for the outcome of the last action and
//! answers with the next one. This module holds its model, what the host hands in and gets
//! back, and the function [`next`] that says what every step does.

use crate::agent::{owner, AgentModel};
use crate::error::{CoreError, CoreErrorModel, HookError, ToolError, ToolErrorModel, TransitionModel};
use crate::event::{AgentEvent, EventKindModel, EventModel};
use crate::hooks::{
    AfterModel, AfterToolCall, BeforeModel, BeforeToolCall, ContextEnvelope, ContextModel,
    NextTurn, NextTurnModel,
};
use crate::json::{Json, JsonValue};
use crate::queue::{QueuedModel, QueuesModel};
use crate::scheduler::{ModelRequest, ModelStreamEvent, RequestModel, StreamEventModel};
use crate::state::{
    saturating_sum, AgentPhase, AgentStateModel, CallModel, MessageId, MessageModel, ModelDescriptorModel,
    RunId, RunPhase, RunStateModel, StopReason, ThinkingLevel, ToolCallId, TurnAccountingModel,
    TurnId,
};
use crate::stream::StreamModel;
use crate::tool::{
    find_tool, ToolCall, ToolExecutionMode, ToolResult, ToolResultModel, ToolUpdate,
    ToolUpdateModel,
};
use vstd::prelude::*;

verus! {

broadcast use crate::model::group_views;

/// Where a run stands between two steps. An index is that of a tool call in its batch.
#[derive(Clone, Copy, Debug, Eq, PartialEq, Structural)]
pub enum Point {
    /// Not driven yet.
    Created,
    /// The opening events are being published.
    Opening,
    /// A queued message was injected.
    Injecting,
    /// The host transforms the context.
    Transforming,
    /// The host converts the context.
    Converting,
    /// The host opens the provider stream.
    Connecting,
    /// The provider stream is open.
    Streaming,
    /// The assistant message was published.
    AssistantPublished,
    /// The usage of the turn was published.
    UsagePublished,
    /// The end of a failed turn was published.
    FailedTurn,
    /// The end of a run with a failed response was published.
    FailedEnd,
    /// The refusal of a truncated call was announced.
    TruncatedStarted(usize),
    /// The refusal of a truncated call was published.
    TruncatedEnded(usize),
    /// The refusal of a truncated call stands in the transcript.
    TruncatedAppended(usize),
    /// A call was announced.
    Started(usize),
    /// The host validates the arguments of a call.
    Validating(usize),
    /// The host decides on a call.
    Deciding(usize),
    /// A call that does not execute was published.
    Refused(usize),
    /// The host starts the tools that execute.
    Launching,
    /// Tools execute.
    Running,
    /// Updates of executing tools were published.
    Updated,
    /// The host polls one sibling of a cancelled batch.
    Polling(usize),
    /// Updates beside a polled sibling are flushed.
    PolledFlush(usize),
    /// The host reviews the result of a polled sibling.
    PolledReview(usize),
    /// A polled sibling was published.
    PolledEnded,
    /// The last updates of a completed tool were published.
    Completed(usize),
    /// Updates beside a completed tool of a sequential batch are flushed.
    Flushing(usize),
    /// The host reviews the result of a completed tool.
    Reviewing(usize),
    /// Updates beside a reviewed tool of a parallel batch are flushed.
    ReviewedFlush(usize),
    /// A completed tool was published.
    Ended(usize),
    /// The result of a call stands in the transcript.
    Appended(usize),
    /// The end of a turn was published.
    TurnEnded,
    /// The host prepares the next turn.
    Preparing,
    /// The host decides whether to stop.
    Asking,
    /// The start of the next turn was published.
    TurnStarted,
    /// The end of the run was published.
    Closing,
    /// The last turn of a failing run was published.
    FailureTurn,
    /// The end of a failing run was published.
    FailureEnd,
    /// The last turn of a cancelled run was published.
    CancelTurn,
    /// The end of a cancelled run was published.
    CancelEnd,
    /// Nothing is left to do.
    Finished,
}

/// One update captured by a tool callback and waiting for lifecycle delivery.
#[derive(Clone, Debug, Eq, PartialEq)]
pub struct PendingToolUpdate {
    /// Call that produced the update.
    pub tool_call_id: ToolCallId,
    /// Name of its tool.
    pub tool_name: String,
    /// The update.
    pub update: ToolUpdate,
}

/// Model of a [`PendingToolUpdate`].
#[verifier::ext_equal]
pub struct PendingUpdateModel {
    pub tool_call_id: Seq<char>,
    pub tool_name: Seq<char>,
    pub update: ToolUpdateModel,
}

impl View for PendingToolUpdate {
    type V = PendingUpdateModel;

    open spec fn view(&self) -> PendingUpdateModel {
        PendingUpdateModel {
            tool_call_id: self.tool_call_id@,
            tool_name: self.tool_name@,
            update: self.update@,
        }
    }
}

/// The settled outcome of one call of a batch, once it has one.
#[derive(Clone, Debug, Eq, PartialEq)]
pub struct ToolSlot {
    /// Final result.
    pub result: Option<ToolResult>,
    /// Whether the call asks to stop after the batch.
    pub terminate: bool,
}

/// Model of a [`ToolSlot`].
#[verifier::ext_equal]
pub struct SlotModel {
    pub result: Option<ToolResultModel>,
    pub terminate: bool,
}

impl View for ToolSlot {
    type V = SlotModel;

    open spec fn view(&self) -> SlotModel {
        SlotModel { result: crate::model::opt_view(self.result), terminate: self.terminate }
    }
}

/// What a tool returned.
pub type Execution = Result<ToolResult, ToolError>;

/// The model of what a tool returned.
pub open spec fn execution_model(execution: Execution) -> Result<ToolResultModel, ToolErrorModel> {
    match execution {
        Ok(result) => Ok(result@),
        Err(error) => Err(error@),
    }
}

/// The model of what a tool returned, if it did.
pub open spec fn execution_opt(execution: Option<Execution>) -> Option<
    Result<ToolResultModel, ToolErrorModel>,
> {
    match execution {
        Some(e) => Some(execution_model(e)),
        None => None,
    }
}

/// Model of a [`RunHandle`].
#[verifier::ext_equal]
pub struct RunModel {
    pub state: RunStateModel,
    pub initial_messages: Seq<MessageModel>,
    pub message_start_index: nat,
    pub skip_initial_steering: bool,
    pub point: Point,
    pub outbox: Seq<EventKindModel>,
    pub turn_id: TurnId,
    pub model_override: Option<ModelDescriptorModel>,
    pub thinking_override: Option<ThinkingLevel>,
    pub context: Option<ContextModel>,
    pub queued: Seq<QueuedModel>,
    pub request: Option<RequestModel>,
    pub stream: StreamModel,
    pub turn_model: Option<ModelDescriptorModel>,
    pub calls: Seq<CallModel>,
    pub reason: StopReason,
    pub parallel: bool,
    pub slots: Seq<SlotModel>,
    pub running: Seq<usize>,
    pub siblings: Seq<usize>,
    pub updated: Seq<Seq<char>>,
    pub execution: Option<Result<ToolResultModel, ToolErrorModel>>,
    pub result: Option<ToolResultModel>,
    pub terminate: bool,
    pub error: Option<CoreErrorModel>,
}

/// The outcome of one [`RunAction`], handed back by the host.
#[derive(Debug)]
pub enum RunInput {
    /// Begin to drive the run.
    Drive,
    /// The event reached its observers.
    Published,
    /// The action failed.
    Failed(CoreError),
    /// The transformed context.
    Context(ContextEnvelope),
    /// The converted context.
    Converted(String),
    /// The provider stream is open.
    Connected,
    /// The next provider event, or the end of the stream.
    Stream(Option<ModelStreamEvent>),
    /// The verdict on a call's arguments.
    Validated(Result<(), ToolError>),
    /// The decision on a call.
    Before(Result<BeforeToolCall, HookError>),
    /// The tools were started.
    Launched,
    /// Updates of executing tools.
    Updates(Vec<PendingToolUpdate>),
    /// A tool returned, with the updates that precede its return.
    Completed { index: usize, execution: Execution, updates: Vec<PendingToolUpdate> },
    /// What a sibling returned when polled once.
    Polled(Option<Execution>),
    /// The updates that were waiting, if any.
    Flushed(Vec<PendingToolUpdate>),
    /// The review of a result.
    After(Result<AfterToolCall, HookError>),
    /// The preparation of the next turn.
    NextTurn(NextTurn),
    /// Whether to stop after this turn.
    Stop(bool),
}

/// Model of a [`RunInput`].
pub enum InputModel {
    Drive,
    Published,
    Failed(CoreErrorModel),
    Context(ContextModel),
    Converted(Seq<char>),
    Connected,
    Stream(Option<StreamEventModel>),
    Validated(Result<(), ToolErrorModel>),
    Before(Result<BeforeModel, Seq<char>>),
    Launched,
    Updates(Seq<PendingUpdateModel>),
    Completed {
        index: usize,
        execution: Result<ToolResultModel, ToolErrorModel>,
        updates: Seq<PendingUpdateModel>,
    },
    Polled(Option<Result<ToolResultModel, ToolErrorModel>>),
    Flushed(Seq<PendingUpdateModel>),
    After(Result<AfterModel, Seq<char>>),
    NextTurn(NextTurnModel),
    Stop(bool),
}

/// A decision of a hook; of its failure only the text matters.
pub open spec fn before_model(before: Result<BeforeToolCall, HookError>) -> Result<
    BeforeModel,
    Seq<char>,
> {
    match before {
        Ok(decision) => Ok(decision@),
        Err(error) => Err(error.message@),
    }
}

/// A review of a hook; of its failure only the text matters.
pub open spec fn after_model(after: Result<AfterToolCall, HookError>) -> Result<
    AfterModel,
    Seq<char>,
> {
    match after {
        Ok(review) => Ok(review@),
        Err(error) => Err(error.message@),
    }
}

impl View for RunInput {
    type V = InputModel;

    open spec fn view(&self) -> InputModel {
        match *self {
            RunInput::Drive => InputModel::Drive,
            RunInput::Published => InputModel::Published,
            RunInput::Failed(error) => InputModel::Failed(error@),
            RunInput::Context(context) => InputModel::Context(context@),
            RunInput::Converted(text) => InputModel::Converted(text@),
            RunInput::Connected => InputModel::Connected,
            RunInput::Stream(event) => InputModel::Stream(crate::model::opt_view(event)),
            RunInput::Validated(verdict) => InputModel::Validated(
                match verdict {
                    Ok(()) => Ok(()),
                    Err(error) => Err(error@),
                },
            ),
            RunInput::Before(before) => InputModel::Before(before_model(before)),
            RunInput::Launched => InputModel::Launched,
            RunInput::Updates(updates) => InputModel::Updates(crate::model::views(updates@)),
            RunInput::Completed { index, execution, updates } => InputModel::Completed {
                index,
                execution: execution_model(execution),
                updates: crate::model::views(updates@),
            },
            RunInput::Polled(execution) => InputModel::Polled(execution_opt(execution)),
            RunInput::Flushed(updates) => InputModel::Flushed(crate::model::views(updates@)),
            RunInput::After(after) => InputModel::After(after_model(after)),
            RunInput::NextTurn(next) => InputModel::NextTurn(next@),
            RunInput::Stop(stop) => InputModel::Stop(stop),
        }
    }
}

/// What the host does next for a run.
#[derive(Debug)]
pub enum RunAction {
    /// Deliver an event to subscribers and observers.
    Publish(AgentEvent),
    /// Transform the context.
    TransformContext(ContextEnvelope),
    /// Convert the context to the provider's form.
    ConvertContext(ContextEnvelope),
    /// Open a provider stream.
    OpenStream(ModelRequest),
    /// Take the next provider event.
    NextStreamEvent,
    /// Validate the arguments of a call against the schema of its tool.
    ValidateArguments { call: ToolCall, schema: JsonValue },
    /// Decide on a call.
    BeforeToolCall { call: ToolCall, context: ContextEnvelope },
    /// Start the calls with these indices.
    StartTools(Vec<usize>),
    /// Wait for an update or a return of the executing tools.
    AwaitTools,
    /// Poll the call with this index once, then drop it.
    PollOnce(usize),
    /// Take the updates that are waiting.
    FlushUpdates,
    /// Review the result of a call.
    AfterToolCall { call: ToolCall, result: ToolResult, context: ContextEnvelope },
    /// Prepare the next turn.
    PrepareNextTurn(ContextEnvelope),
    /// Decide whether to stop.
    AskStop(ContextEnvelope),
    /// The run settled with this outcome.
    Done(Result<(), CoreError>),
}

/// Model of a [`RunAction`].
#[verifier::ext_equal]
pub enum ActionModel {
    Publish(EventModel),
    TransformContext(ContextModel),
    ConvertContext(ContextModel),
    OpenStream(RequestModel),
    NextStreamEvent,
    ValidateArguments { call: CallModel, schema: Json },
    BeforeToolCall { call: CallModel, context: ContextModel },
    StartTools(Seq<usize>),
    AwaitTools,
    PollOnce(usize),
    FlushUpdates,
    AfterToolCall { call: CallModel, result: ToolResultModel, context: ContextModel },
    PrepareNextTurn(ContextModel),
    AskStop(ContextModel),
    Done(Result<(), CoreErrorModel>),
}

impl View for RunAction {
    type V = ActionModel;

    open spec fn view(&self) -> ActionModel {
        match *self {
            RunAction::Publish(event) => ActionModel::Publish(event@),
            RunAction::TransformContext(context) => ActionModel::TransformContext(context@),
            RunAction::ConvertContext(context) => ActionModel::ConvertContext(context@),
            RunAction::OpenStream(request) => ActionModel::OpenStream(request@),
            RunAction::NextStreamEvent => ActionModel::NextStreamEvent,
            RunAction::ValidateArguments { call, schema } => ActionModel::ValidateArguments {
                call: call@,
                schema: schema@,
            },
            RunAction::BeforeToolCall { call, context } => ActionModel::BeforeToolCall {
                call: call@,
                context: context@,
            },
            RunAction::StartTools(indices) => ActionModel::StartTools(indices@),
            RunAction::AwaitTools => ActionModel::AwaitTools,
            RunAction::PollOnce(index) => ActionModel::PollOnce(index),
            RunAction::FlushUpdates => ActionModel::FlushUpdates,
            RunAction::AfterToolCall { call, result, context } => ActionModel::AfterToolCall {
                call: call@,
                result: result@,
                context: context@,
            },
            RunAction::PrepareNextTurn(context) => ActionModel::PrepareNextTurn(context@),
            RunAction::AskStop(context) => ActionModel::AskStop(context@),
            RunAction::Done(outcome) => ActionModel::Done(
                match outcome {
                    Ok(()) => Ok(()),
                    Err(error) => Err(error@),
                },
            ),
        }
    }
}

/// A run and the agent it owns, after one step, and what the host does next.
#[verifier::ext_equal]
pub struct Next {
    pub run: RunModel,
    pub agent: AgentModel,
    pub action: ActionModel,
}

// ---------------------------------------------------------------------------------------------
// The transition function, part by part.
// ---------------------------------------------------------------------------------------------

/// Publish the first event of the outbox.
pub open spec fn publish(run: RunModel, agent: AgentModel) -> Next {
    Next {
        run: RunModel {
            state: run.state.recorded(run.outbox[0]),
            outbox: run.outbox.skip(1),
            ..run
        },
        agent,
        action: ActionModel::Publish(run.state.next_event(run.outbox[0])),
    }
}

/// Publish a sequence of events, then go on from a point.
pub open spec fn emit(
    run: RunModel,
    agent: AgentModel,
    kinds: Seq<EventKindModel>,
    point: Point,
) -> Next {
    publish(RunModel { outbox: kinds, point, ..run }, agent)
}

/// Ask the host for something, and wait at a point.
pub open spec fn ask(run: RunModel, agent: AgentModel, point: Point, action: ActionModel) -> Next {
    Next { run: RunModel { point, ..run }, agent, action }
}

/// Report the outcome of the run.
pub open spec fn done(
    run: RunModel,
    agent: AgentModel,
    outcome: Result<(), CoreErrorModel>,
) -> Next {
    Next {
        run: RunModel { point: Point::Finished, outbox: Seq::empty(), ..run },
        agent,
        action: ActionModel::Done(outcome),
    }
}

/// The refusal of a lifecycle operation.
pub open spec fn refused(entity: Seq<char>, from: Seq<char>, operation: Seq<char>) -> CoreErrorModel {
    CoreErrorModel::InvalidTransition(TransitionModel { entity, from, operation })
}

/// The two events that announce a complete message.
pub open spec fn message_events(message: MessageModel) -> Seq<EventKindModel> {
    seq![EventKindModel::MessageStart { message }, EventKindModel::MessageEnd { message }]
}

/// The events that announce a sequence of complete messages.
pub open spec fn all_message_events(messages: Seq<MessageModel>) -> Seq<EventKindModel>
    decreases messages.len(),
{
    if messages.len() == 0 {
        Seq::empty()
    } else {
        all_message_events(messages.drop_last()) + message_events(messages.last())
    }
}

/// The messages that a run added to the transcript.
pub open spec fn new_messages(run: RunModel, agent: AgentModel) -> Seq<MessageModel> {
    if run.message_start_index <= agent.state.messages.len() {
        agent.state.messages.skip(run.message_start_index as int)
    } else {
        Seq::empty()
    }
}

/// The transcript as hooks see it.
pub open spec fn context_of(agent: AgentModel) -> ContextModel {
    ContextModel {
        version: 1,
        messages: agent.state.messages,
        host_messages: agent.state.host_messages,
    }
}

/// A run without outcome gets one, and its agent becomes idle.
pub open spec fn finish(
    run: RunModel,
    agent: AgentModel,
    phase: RunPhase,
    reason: StopReason,
    error: Option<Seq<char>>,
) -> (RunModel, AgentModel) {
    if run.state.phase.terminal() {
        (run, agent)
    } else {
        (
            RunModel { state: run.state.finished(phase, reason, error), ..run },
            AgentModel { state: agent.state.settled(error), active_run: None, ..agent },
        )
    }
}

/// The turn that a run is in.
pub open spec fn current_turn(run: RunModel) -> TurnId {
    match run.state.turn_id {
        Some(turn_id) => turn_id,
        None => TurnId(1),
    }
}

/// The message that a failed or cancelled run leaves behind.
pub open spec fn closing_message(
    agent: AgentModel,
    reason: StopReason,
    text: Seq<char>,
) -> MessageModel {
    MessageModel::Assistant {
        id: MessageId(agent.state.next_message_id),
        content: Seq::empty(),
        tool_calls: Seq::empty(),
        stop_reason: Some(reason),
        error_message: Some(text),
    }
}

/// Begin to settle a failed run.
#[verifier::opaque]
pub open spec fn settle_failure(run: RunModel, agent: AgentModel, error: CoreErrorModel) -> Next {
    let message = closing_message(agent, StopReason::Error, error.text());
    let state = AgentStateModel {
        partial_response: None,
        pending_tool_calls: Set::empty(),
        ..agent.state.allocated().appended(message)
    };
    emit(
        RunModel { error: Some(error), ..run },
        AgentModel { state, ..agent },
        message_events(message).push(
            EventKindModel::TurnEnd { turn_id: current_turn(run), reason: StopReason::Error },
        ),
        Point::FailureTurn,
    )
}

/// Whether a transcript already ends in an aborted response.
pub open spec fn ends_aborted(messages: Seq<MessageModel>) -> bool {
    messages.len() > 0 && (messages.last() matches MessageModel::Assistant { stop_reason, .. }
        && stop_reason == Some(StopReason::Aborted))
}

/// Begin to settle a cancelled run.
#[verifier::opaque]
pub open spec fn settle_cancellation(
    run: RunModel,
    agent: AgentModel,
    error: CoreErrorModel,
) -> Next {
    let base = AgentStateModel {
        partial_response: None,
        is_streaming: false,
        pending_tool_calls: Set::empty(),
        ..agent.state
    };
    let turn_end = EventKindModel::TurnEnd {
        turn_id: current_turn(run),
        reason: StopReason::Cancelled,
    };
    let run = RunModel { error: Some(error), ..run };
    if ends_aborted(agent.state.messages) {
        emit(run, AgentModel { state: base, ..agent }, seq![turn_end], Point::CancelTurn)
    } else {
        let message = closing_message(agent, StopReason::Aborted, "Operation aborted"@);
        emit(
            run,
            AgentModel { state: base.allocated().appended(message), ..agent },
            message_events(message).push(turn_end),
            Point::CancelTurn,
        )
    }
}

/// A failure of the drive: settle the run unless it already has an outcome.
#[verifier::opaque]
pub open spec fn raise(
    run: RunModel,
    agent: AgentModel,
    error: CoreErrorModel,
    cancelled: bool,
) -> Next {
    if run.state.phase.terminal() {
        done(run, agent, Err(error))
    } else if cancelled {
        settle_cancellation(run, agent, error)
    } else {
        settle_failure(run, agent, error)
    }
}

/// Begin to drive a created run.
#[verifier::opaque]
pub open spec fn start(run: RunModel, agent: AgentModel, cancelled: bool) -> Next {
    if run.state.phase != RunPhase::Created {
        raise(
            run,
            agent,
            refused("run"@, run.state.phase.spec_name(), "start_turn"@),
            cancelled,
        )
    } else {
        let run = RunModel {
            state: RunStateModel {
                phase: RunPhase::Running,
                turn_id: Some(TurnId(1)),
                ..run.state
            },
            turn_id: TurnId(1),
            ..run
        };
        if owner(agent.state.phase) != Some(run.state.id) {
            raise(run, agent, refused("agent"@, "not-running"@, "drive"@), cancelled)
        } else {
            emit(
                run,
                agent,
                seq![
                    EventKindModel::AgentStart,
                    EventKindModel::TurnStart { turn_id: TurnId(1) },
                ] + all_message_events(run.initial_messages),
                Point::Opening,
            )
        }
    }
}

/// Ask for the next model response, from a prepared context or from the transcript. A run that
/// was asked to stop before its first request settles here. Later, the provider is handed the
/// cancelled signal and decides.
#[verifier::opaque]
pub open spec fn request_model(run: RunModel, agent: AgentModel, cancelled: bool) -> Next {
    if owner(agent.state.phase) != Some(run.state.id) {
        raise(run, agent, refused("agent"@, "not-running"@, "model_request"@), cancelled)
    } else if cancelled && run.turn_id == TurnId(1) {
        raise(run, agent, CoreErrorModel::Cancelled, cancelled)
    } else {
        let context = match run.context {
            Some(context) => context,
            None => context_of(agent),
        };
        let request = RequestModel {
            system_prompt: agent.state.system_prompt,
            context: Seq::empty(),
            tools: agent.tools,
            model: match run.model_override {
                Some(model) => Some(model),
                None => agent.state.model,
            },
            thinking_level: match run.thinking_override {
                Some(level) => level,
                None => agent.state.thinking_level,
            },
        };
        ask(
            RunModel { context: None, request: Some(request), ..run },
            AgentModel { state: AgentStateModel { is_streaming: true, ..agent.state }, ..agent },
            Point::Transforming,
            ActionModel::TransformContext(context),
        )
    }
}

/// Inject the next queued message into transcript and context, or go on to the model.
#[verifier::opaque]
pub open spec fn inject(run: RunModel, agent: AgentModel, cancelled: bool) -> Next {
    if run.queued.len() == 0 {
        request_model(run, agent, cancelled)
    } else {
        let message = MessageModel::User {
            id: MessageId(agent.state.next_message_id),
            content: run.queued[0].content,
        };
        emit(
            RunModel {
                queued: run.queued.skip(1),
                context: match run.context {
                    Some(context) => Some(
                        ContextModel { messages: context.messages.push(message), ..context },
                    ),
                    None => None,
                },
                ..run
            },
            AgentModel { state: agent.state.allocated().appended(message), ..agent },
            message_events(message),
            Point::Injecting,
        )
    }
}

/// Go on once the opening events are published.
#[verifier::opaque]
pub open spec fn opened(run: RunModel, agent: AgentModel, cancelled: bool) -> Next {
    if run.skip_initial_steering {
        request_model(RunModel { context: None, ..run }, agent, cancelled)
    } else if owner(agent.state.phase) is None {
        raise(run, agent, refused("agent"@, "not-running"@, "current_context"@), cancelled)
    } else {
        inject(
            RunModel {
                context: Some(context_of(agent)),
                queued: agent.queues.steering.drained(agent.steering),
                ..run
            },
            AgentModel {
                queues: QueuesModel {
                    steering: agent.queues.steering.after_drain(agent.steering),
                    ..agent.queues
                },
                ..agent
            },
            cancelled,
        )
    }
}

/// The host converted the context: connect to the provider.
#[verifier::opaque]
pub open spec fn connect(
    run: RunModel,
    agent: AgentModel,
    text: Seq<char>,
    cancelled: bool,
) -> Next {
    let request = RequestModel { context: text, ..run.request->0 };
    let run = RunModel { request: None, turn_model: request.model, ..run };
    if !agent.provider {
        raise(run, agent, CoreErrorModel::MissingModelProvider, cancelled)
    } else {
        ask(run, agent, Point::Connecting, ActionModel::OpenStream(request))
    }
}

/// Reduce one provider event.
#[verifier::opaque]
pub open spec fn streamed(
    run: RunModel,
    agent: AgentModel,
    event: StreamEventModel,
    cancelled: bool,
) -> Next {
    if run.stream.reason is Some {
        raise(
            run,
            agent,
            CoreErrorModel::UnsupportedModelStream {
                message: "model stream contained events after its terminal event"@,
            },
            cancelled,
        )
    } else {
        let kinds = run.stream.kinds_after(agent.state, event);
        let next_run = RunModel { stream: run.stream.after(agent.state, event), ..run };
        let next_agent = AgentModel {
            state: run.stream.state_after(agent.state, event),
            ..agent
        };
        if kinds.len() == 0 {
            ask(next_run, next_agent, Point::Streaming, ActionModel::NextStreamEvent)
        } else {
            emit(next_run, next_agent, kinds, Point::Streaming)
        }
    }
}

/// The provider stream ended: publish the assistant message.
#[verifier::opaque]
pub open spec fn stream_ended(run: RunModel, agent: AgentModel, cancelled: bool) -> Next {
    if run.stream.reason is None {
        raise(
            run,
            agent,
            CoreErrorModel::UnsupportedModelStream {
                message: "model stream ended without a terminal event"@,
            },
            cancelled,
        )
    } else {
        emit(
            RunModel { calls: run.stream.tool_calls, reason: run.stream.reason->0, ..run },
            AgentModel { state: run.stream.state_finished(agent.state), ..agent },
            run.stream.kinds_finished(agent.state),
            Point::AssistantPublished,
        )
    }
}

/// Publish the usage of the turn, if the provider reported any.
#[verifier::opaque]
pub open spec fn account(run: RunModel, agent: AgentModel, cancelled: bool) -> Next {
    match run.stream.usage {
        None => after_response(run, agent, cancelled),
        Some(usage) => {
            let accounting = TurnAccountingModel {
                run_id: run.state.id,
                turn_id: run.turn_id,
                model: run.turn_model,
                usage,
            };
            emit(
                run,
                AgentModel {
                    state: AgentStateModel {
                        accounting: agent.state.accounting.recorded(accounting),
                        ..agent.state
                    },
                    ..agent
                },
                seq![EventKindModel::ModelTurnUsage { accounting }],
                Point::UsagePublished,
            )
        },
    }
}

/// Name of a stop reason, as diagnostics print it.
pub open spec fn reason_name(reason: StopReason) -> Seq<char> {
    match reason {
        StopReason::EndTurn => "EndTurn"@,
        StopReason::ToolUse => "ToolUse"@,
        StopReason::Length => "Length"@,
        StopReason::Aborted => "Aborted"@,
        StopReason::Cancelled => "Cancelled"@,
        StopReason::Error => "Error"@,
    }
}

/// Whether any call of a batch names a tool that must run alone.
pub open spec fn wants_sequence(run: RunModel, agent: AgentModel) -> bool {
    exists|i: int|
        0 <= i < run.calls.len() && is_sequential(agent, (#[trigger] run.calls[i]).name)
}

/// Whether a name is that of a tool that must run alone.
pub open spec fn is_sequential(agent: AgentModel, name: Seq<char>) -> bool {
    find_tool(agent.tools, name) matches Some(tool) && tool.execution_mode
        == ToolExecutionMode::Sequential
}

/// Decide what follows a complete model response.
#[verifier::opaque]
pub open spec fn after_response(run: RunModel, agent: AgentModel, cancelled: bool) -> Next {
    if run.reason == StopReason::Error || run.reason == StopReason::Aborted {
        emit(
            run,
            agent,
            seq![EventKindModel::TurnEnd { turn_id: run.turn_id, reason: run.reason }],
            Point::FailedTurn,
        )
    } else if run.calls.len() == 0 {
        end_turn(RunModel { terminate: false, ..run }, agent)
    } else if run.reason == StopReason::Length {
        announce(run, agent, 0, Point::TruncatedStarted(0))
    } else if run.reason != StopReason::ToolUse {
        raise(
            run,
            agent,
            CoreErrorModel::UnsupportedModelStream {
                message: "assistant emitted tool calls with terminal reason "@ + reason_name(
                    run.reason,
                ) + ", expected ToolUse"@,
            },
            cancelled,
        )
    } else {
        announce(
            RunModel {
                parallel: !wants_sequence(run, agent),
                slots: Seq::new(
                    run.calls.len(),
                    |i: int| SlotModel { result: None, terminate: false },
                ),
                running: Seq::empty(),
                siblings: Seq::empty(),
                terminate: true,
                ..run
            },
            agent,
            0,
            Point::Started(0),
        )
    }
}

/// Publish the end of the turn.
#[verifier::opaque]
pub open spec fn end_turn(run: RunModel, agent: AgentModel) -> Next {
    emit(
        run,
        agent,
        seq![EventKindModel::TurnEnd { turn_id: run.turn_id, reason: run.reason }],
        Point::TurnEnded,
    )
}

/// Announce a call: it is pending from here on.
#[verifier::opaque]
pub open spec fn announce(run: RunModel, agent: AgentModel, i: int, point: Point) -> Next {
    let call = run.calls[i];
    emit(
        run,
        AgentModel {
            state: AgentStateModel {
                pending_tool_calls: agent.state.pending_tool_calls.insert(call.id),
                ..agent.state
            },
            ..agent
        },
        seq![
            EventKindModel::ToolExecutionStart {
                tool_call_id: call.id,
                tool_name: call.name,
                arguments: call.arguments,
            },
        ],
        point,
    )
}

/// Publish the result of a call: it is no longer pending.
#[verifier::opaque]
pub open spec fn conclude(
    run: RunModel,
    agent: AgentModel,
    i: int,
    result: ToolResultModel,
    point: Point,
) -> Next {
    let call = run.calls[i];
    emit(
        run,
        AgentModel {
            state: AgentStateModel {
                pending_tool_calls: agent.state.pending_tool_calls.remove(call.id),
                ..agent.state
            },
            ..agent
        },
        seq![
            EventKindModel::ToolExecutionEnd {
                tool_call_id: call.id,
                tool_name: call.name,
                result,
            },
        ],
        point,
    )
}

/// The transcript message that carries the result of a call.
pub open spec fn result_message(
    id: MessageId,
    call: CallModel,
    result: ToolResultModel,
) -> MessageModel {
    MessageModel::ToolResult {
        id,
        tool_call_id: call.id,
        tool_name: call.name,
        content: result.content,
        details: result.details,
        usage: result.usage,
        added_tool_names: result.added_tool_names,
        is_error: result.is_error,
    }
}

/// Append the result of a call to the transcript.
#[verifier::opaque]
pub open spec fn append(
    run: RunModel,
    agent: AgentModel,
    i: int,
    result: ToolResultModel,
    point: Point,
) -> Next {
    let message = result_message(
        MessageId(agent.state.next_message_id),
        run.calls[i],
        result,
    );
    emit(
        run,
        AgentModel { state: agent.state.allocated().appended(message), ..agent },
        message_events(message),
        point,
    )
}

/// The result of a call that a truncated response asked for.
pub open spec fn truncated_result(call: CallModel) -> ToolResultModel {
    ToolResultModel::failed(
        call.id,
        "Tool call \""@ + call.name
            + "\" was not executed: the response hit the output token limit, so its arguments may be truncated. Re-issue the tool call with complete arguments."@,
    )
}

/// Settle a call that does not execute.
#[verifier::opaque]
pub open spec fn refuse(
    run: RunModel,
    agent: AgentModel,
    i: int,
    result: ToolResultModel,
    terminate: bool,
) -> Next {
    conclude(
        RunModel {
            slots: run.slots.update(i, SlotModel { result: Some(result), terminate }),
            ..run
        },
        agent,
        i,
        result,
        Point::Refused(i as usize),
    )
}

/// Look up the tool of an announced call.
#[verifier::opaque]
pub open spec fn prepare(run: RunModel, agent: AgentModel, i: int) -> Next {
    let call = run.calls[i];
    match find_tool(agent.tools, call.name) {
        None => refuse(
            run,
            agent,
            i,
            ToolResultModel::failed(call.id, "Tool "@ + call.name + " not found"@),
            false,
        ),
        Some(tool) => ask(
            run,
            agent,
            Point::Validating(i as usize),
            ActionModel::ValidateArguments { call, schema: tool.schema },
        ),
    }
}

/// The arguments of a call were validated.
#[verifier::opaque]
pub open spec fn validated(
    run: RunModel,
    agent: AgentModel,
    i: int,
    verdict: Result<(), ToolErrorModel>,
    cancelled: bool,
) -> Next {
    let call = run.calls[i];
    match verdict {
        Err(error) => refuse(
            run,
            agent,
            i,
            ToolResultModel::failed(call.id, error.result_text()),
            false,
        ),
        Ok(()) => if owner(agent.state.phase) is None {
            raise(run, agent, refused("agent"@, "not-running"@, "current_context"@), cancelled)
        } else {
            ask(
                run,
                agent,
                Point::Deciding(i as usize),
                ActionModel::BeforeToolCall { call, context: context_of(agent) },
            )
        },
    }
}

/// The host decided on a call.
#[verifier::opaque]
pub open spec fn decided(
    run: RunModel,
    agent: AgentModel,
    i: int,
    decision: Result<BeforeModel, Seq<char>>,
    cancelled: bool,
) -> Next {
    let call = run.calls[i];
    match decision {
        Err(text) => refuse(run, agent, i, ToolResultModel::failed(call.id, text), false),
        Ok(BeforeModel::Block { reason }) => refuse(
            run,
            agent,
            i,
            ToolResultModel::failed(call.id, reason),
            false,
        ),
        Ok(BeforeModel::Terminate { reason }) => refuse(
            run,
            agent,
            i,
            ToolResultModel::failed(call.id, reason),
            true,
        ),
        Ok(BeforeModel::Allow) => if cancelled {
            refuse(
                run,
                agent,
                i,
                ToolResultModel::failed(call.id, "Operation aborted"@),
                false,
            )
        } else {
            let run = RunModel { running: run.running.push(i as usize), ..run };
            if run.parallel {
                announce_or_launch(run, agent, i + 1)
            } else {
                ask(run, agent, Point::Launching, ActionModel::StartTools(run.running))
            }
        },
    }
}

/// Announce the next call of a parallel batch, or start those that execute.
#[verifier::opaque]
pub open spec fn announce_or_launch(run: RunModel, agent: AgentModel, i: int) -> Next {
    if i < run.calls.len() {
        announce(run, agent, i, Point::Started(i as usize))
    } else if run.running.len() == 0 {
        append_slot(run, agent, 0)
    } else {
        ask(run, agent, Point::Launching, ActionModel::StartTools(run.running))
    }
}

/// Append the settled result of a call, and keep whether every call asks to stop.
#[verifier::opaque]
pub open spec fn append_slot(run: RunModel, agent: AgentModel, i: int) -> Next {
    append(
        RunModel { terminate: run.terminate && run.slots[i].terminate, ..run },
        agent,
        i,
        run.slots[i].result->0,
        Point::Appended(i as usize),
    )
}

/// Go on once a call that does not execute is published.
#[verifier::opaque]
pub open spec fn after_refusal(run: RunModel, agent: AgentModel, i: int) -> Next {
    if run.parallel {
        announce_or_launch(run, agent, i + 1)
    } else {
        append_slot(run, agent, i)
    }
}

/// The event of one tool update.
pub open spec fn update_event(update: PendingUpdateModel) -> EventKindModel {
    EventKindModel::ToolExecutionUpdate {
        tool_call_id: update.tool_call_id,
        tool_name: update.tool_name,
        update: update.update,
    }
}

/// The events of tool updates, in order.
pub open spec fn update_events(updates: Seq<PendingUpdateModel>) -> Seq<EventKindModel> {
    updates.map_values(|update: PendingUpdateModel| update_event(update))
}

/// The calls of tool updates, in order.
pub open spec fn update_calls(updates: Seq<PendingUpdateModel>) -> Seq<Seq<char>> {
    updates.map_values(|update: PendingUpdateModel| update.tool_call_id)
}

/// Executing tools delivered updates.
#[verifier::opaque]
pub open spec fn progressed(
    run: RunModel,
    agent: AgentModel,
    updates: Seq<PendingUpdateModel>,
    cancelled: bool,
) -> Next {
    let run = RunModel { updated: update_calls(updates), ..run };
    if updates.len() == 0 {
        after_updates(run, agent, cancelled)
    } else {
        emit(run, agent, update_events(updates), Point::Updated)
    }
}

/// Whether the call of an executing tool is among those that delivered the last updates.
pub open spec fn reported(run: RunModel, index: usize) -> bool {
    run.updated.contains(run.calls[index as int].id)
}

/// Of some executing tools, those that did, or did not, deliver the last updates, in order.
pub open spec fn kept(run: RunModel, indices: Seq<usize>, reporting: bool) -> Seq<usize>
    decreases indices.len(),
{
    if indices.len() == 0 {
        Seq::empty()
    } else {
        let rest = kept(run, indices.drop_last(), reporting);
        if reported(run, indices.last()) == reporting {
            rest.push(indices.last())
        } else {
            rest
        }
    }
}

/// Go on once updates are published. A cancelled parallel batch first settles the siblings of
/// the tools that delivered them.
#[verifier::opaque]
pub open spec fn after_updates(run: RunModel, agent: AgentModel, cancelled: bool) -> Next {
    if run.parallel && cancelled {
        next_sibling(
            RunModel {
                running: kept(run, run.running, true),
                siblings: kept(run, run.running, false),
                ..run
            },
            agent,
        )
    } else {
        ask(run, agent, Point::Running, ActionModel::AwaitTools)
    }
}

/// Poll the next sibling, or go back to the tools that still execute.
#[verifier::opaque]
pub open spec fn next_sibling(run: RunModel, agent: AgentModel) -> Next {
    if run.siblings.len() == 0 {
        after_tool(run, agent)
    } else {
        ask(
            RunModel { siblings: run.siblings.skip(1), ..run },
            agent,
            Point::Polling(run.siblings[0]),
            ActionModel::PollOnce(run.siblings[0]),
        )
    }
}

/// Wait for the tools that still execute, or append the results once all are settled.
#[verifier::opaque]
pub open spec fn after_tool(run: RunModel, agent: AgentModel) -> Next {
    if run.running.len() == 0 {
        append_slot(run, agent, 0)
    } else {
        ask(run, agent, Point::Running, ActionModel::AwaitTools)
    }
}

/// What a tool returned, as a result of its call.
pub open spec fn normalized(
    call: CallModel,
    execution: Result<ToolResultModel, ToolErrorModel>,
) -> ToolResultModel {
    match execution {
        Ok(result) => if result.tool_call_id == call.id {
            result
        } else {
            ToolResultModel::failed(
                call.id,
                "Tool "@ + call.name + " returned mismatched tool-call ID "@ + result.tool_call_id,
            )
        },
        Err(error) => ToolResultModel::failed(call.id, error.result_text()),
    }
}

/// A result after its review.
pub open spec fn reviewed(
    call: CallModel,
    result: ToolResultModel,
    review: Result<AfterModel, Seq<char>>,
) -> ToolResultModel {
    match review {
        Ok(after) => after.applied(result),
        Err(text) => ToolResultModel::failed(call.id, text),
    }
}

/// Whether a reviewed call asks to stop after its batch.
pub open spec fn asks_to_stop(
    result: ToolResultModel,
    review: Result<AfterModel, Seq<char>>,
) -> bool {
    review is Ok && result.terminate
}

/// Ask the host to review what a tool returned.
#[verifier::opaque]
pub open spec fn review(
    run: RunModel,
    agent: AgentModel,
    i: int,
    execution: Result<ToolResultModel, ToolErrorModel>,
    point: Point,
    cancelled: bool,
) -> Next {
    let result = normalized(run.calls[i], execution);
    if owner(agent.state.phase) is None {
        raise(run, agent, refused("agent"@, "not-running"@, "current_context"@), cancelled)
    } else {
        ask(
            RunModel { result: Some(result), execution: None, ..run },
            agent,
            point,
            ActionModel::AfterToolCall { call: run.calls[i], result, context: context_of(agent) },
        )
    }
}

/// Updates were flushed at a point that waits until none are left.
pub open spec fn flushed(
    run: RunModel,
    agent: AgentModel,
    updates: Seq<PendingUpdateModel>,
    point: Point,
) -> Next {
    emit(run, agent, update_events(updates), point)
}

/// Settle an executed call of a batch.
#[verifier::opaque]
pub open spec fn settle_tool(
    run: RunModel,
    agent: AgentModel,
    i: int,
    slot: SlotModel,
    point: Point,
) -> Next {
    conclude(
        RunModel { slots: run.slots.update(i, slot), result: None, execution: None, ..run },
        agent,
        i,
        slot.result->0,
        point,
    )
}

/// No update is left beside a polled sibling: review what it returned, or settle it as aborted.
#[verifier::opaque]
pub open spec fn sibling_flushed(run: RunModel, agent: AgentModel, i: int, cancelled: bool) -> Next {
    match run.execution {
        Some(execution) => review(
            run,
            agent,
            i,
            execution,
            Point::PolledReview(i as usize),
            cancelled,
        ),
        None => settle_tool(
            run,
            agent,
            i,
            SlotModel {
                result: Some(
                    ToolResultModel::failed(run.calls[i].id, "Operation aborted"@),
                ),
                terminate: false,
            },
            Point::PolledEnded,
        ),
    }
}

/// Index of the first occurrence of an element, or the length.
pub open spec fn place(s: Seq<usize>, x: usize) -> int
    decreases s.len(),
{
    if s.len() == 0 || s[0] == x {
        0
    } else {
        1 + place(s.drop_first(), x)
    }
}

/// A tool returned.
#[verifier::opaque]
pub open spec fn completed(
    run: RunModel,
    agent: AgentModel,
    index: usize,
    execution: Result<ToolResultModel, ToolErrorModel>,
    updates: Seq<PendingUpdateModel>,
    cancelled: bool,
) -> Next {
    let at = place(run.running, index);
    let run = RunModel {
        running: run.running.update(at, run.running.last()).drop_last(),
        execution: Some(execution),
        ..run
    };
    if updates.len() == 0 {
        after_completion(run, agent, index as int, cancelled)
    } else {
        emit(run, agent, update_events(updates), Point::Completed(index))
    }
}

/// Go on once the last updates of a completed tool are published.
#[verifier::opaque]
pub open spec fn after_completion(
    run: RunModel,
    agent: AgentModel,
    i: int,
    cancelled: bool,
) -> Next {
    if run.parallel {
        review(run, agent, i, run.execution->0, Point::Reviewing(i as usize), cancelled)
    } else {
        ask(run, agent, Point::Flushing(i as usize), ActionModel::FlushUpdates)
    }
}

/// The host reviewed the result of a completed tool.
#[verifier::opaque]
pub open spec fn after_review(
    run: RunModel,
    agent: AgentModel,
    i: int,
    review: Result<AfterModel, Seq<char>>,
) -> Next {
    let result = reviewed(run.calls[i], run.result->0, review);
    let slot = SlotModel { result: Some(result), terminate: asks_to_stop(result, review) };
    if run.parallel {
        ask(
            RunModel { slots: run.slots.update(i, slot), result: None, ..run },
            agent,
            Point::ReviewedFlush(i as usize),
            ActionModel::FlushUpdates,
        )
    } else {
        settle_tool(run, agent, i, slot, Point::Ended(i as usize))
    }
}

/// Go on once the result of a call stands in the transcript.
#[verifier::opaque]
pub open spec fn after_append(run: RunModel, agent: AgentModel, i: int) -> Next {
    if i + 1 < run.calls.len() {
        if run.parallel {
            append_slot(run, agent, i + 1)
        } else {
            announce(
                RunModel { running: Seq::empty(), ..run },
                agent,
                i + 1,
                Point::Started((i + 1) as usize),
            )
        }
    } else {
        end_turn(run, agent)
    }
}

/// Go on once the end of a turn is published.
#[verifier::opaque]
pub open spec fn turn_ended(run: RunModel, agent: AgentModel, cancelled: bool) -> Next {
    if owner(agent.state.phase) is None {
        raise(run, agent, refused("agent"@, "not-running"@, "current_context"@), cancelled)
    } else {
        ask(
            RunModel { context: Some(context_of(agent)), ..run },
            agent,
            Point::Preparing,
            ActionModel::PrepareNextTurn(context_of(agent)),
        )
    }
}

/// The host prepared the next turn.
#[verifier::opaque]
pub open spec fn prepared(run: RunModel, agent: AgentModel, next: NextTurnModel) -> Next {
    let context = match next.context {
        Some(context) => context,
        None => run.context->0,
    };
    ask(
        RunModel {
            context: Some(context),
            model_override: match next.model {
                Some(model) => Some(model),
                None => run.model_override,
            },
            thinking_override: match next.thinking_level {
                Some(level) => Some(level),
                None => run.thinking_override,
            },
            ..run
        },
        agent,
        Point::Asking,
        ActionModel::AskStop(context),
    )
}

/// Publish the end of the run.
#[verifier::opaque]
pub open spec fn close(run: RunModel, agent: AgentModel) -> Next {
    emit(
        run,
        agent,
        seq![EventKindModel::AgentEnd { messages: new_messages(run, agent) }],
        Point::Closing,
    )
}

/// Whether tool results wait for another model response.
pub open spec fn wants_response(run: RunModel) -> bool {
    run.calls.len() > 0 && !run.terminate
}

/// The messages that the next turn starts with: steering, or at the idle boundary follow-up.
pub open spec fn next_queued(agent: AgentModel, wants_response: bool) -> Seq<QueuedModel> {
    let steering = agent.queues.steering.drained(agent.steering);
    if !wants_response && steering.len() == 0 {
        agent.queues.follow_up.drained(agent.follow_up)
    } else {
        steering
    }
}

/// The agent without the messages that the next turn starts with.
pub open spec fn after_queued(agent: AgentModel, wants_response: bool) -> AgentModel {
    let steering = agent.queues.steering.drained(agent.steering);
    AgentModel {
        queues: QueuesModel {
            steering: agent.queues.steering.after_drain(agent.steering),
            follow_up: if !wants_response && steering.len() == 0 {
                agent.queues.follow_up.after_drain(agent.follow_up)
            } else {
                agent.queues.follow_up
            },
        },
        ..agent
    }
}

/// The host answered whether to stop.
#[verifier::opaque]
pub open spec fn answered(
    run: RunModel,
    agent: AgentModel,
    stop: bool,
    cancelled: bool,
) -> Next {
    if stop {
        close(run, agent)
    } else {
        let queued = next_queued(agent, wants_response(run));
        let next_agent = after_queued(agent, wants_response(run));
        if wants_response(run) || queued.len() > 0 {
            let turn_id = TurnId(saturating_sum(run.turn_id.0, 1));
            let next_run = RunModel { turn_id, queued, ..run };
            if run.state.phase != RunPhase::Running {
                raise(
                    next_run,
                    next_agent,
                    refused("run"@, run.state.phase.spec_name(), "advance_turn"@),
                    cancelled,
                )
            } else {
                emit(
                    RunModel {
                        state: RunStateModel { turn_id: Some(turn_id), ..run.state },
                        ..next_run
                    },
                    next_agent,
                    seq![EventKindModel::TurnStart { turn_id }],
                    Point::TurnStarted,
                )
            }
        } else {
            close(run, next_agent)
        }
    }
}

/// The text of a failed or aborted response.
pub open spec fn response_text(run: RunModel) -> Seq<char> {
    match run.stream.error_message {
        Some(text) => text,
        None => if run.reason == StopReason::Aborted {
            "model response was aborted"@
        } else {
            "model response failed"@
        },
    }
}

/// Give a run with a failed or aborted response its outcome.
#[verifier::opaque]
pub open spec fn response_failed(run: RunModel, agent: AgentModel, cancelled: bool) -> Next {
    let text = response_text(run);
    if run.state.phase.terminal() {
        done(run, agent, Err(CoreErrorModel::RunFinished { run_id: run.state.id }))
    } else if run.reason == StopReason::Aborted && cancelled {
        let (r, a) = finish(run, agent, RunPhase::Cancelled, StopReason::Aborted, None);
        done(r, a, Err(CoreErrorModel::Cancelled))
    } else {
        let (r, a) = finish(run, agent, RunPhase::Failed, StopReason::Error, Some(text));
        done(
            r,
            a,
            Err(
                if run.reason == StopReason::Aborted {
                    CoreErrorModel::ModelAborted { message: text }
                } else {
                    CoreErrorModel::ModelError { message: text }
                },
            ),
        )
    }
}

/// Give a run that ended normally its outcome.
#[verifier::opaque]
pub open spec fn closed(run: RunModel, agent: AgentModel) -> Next {
    if run.state.phase.terminal() {
        done(run, agent, Err(CoreErrorModel::RunFinished { run_id: run.state.id }))
    } else {
        let (r, a) = finish(run, agent, RunPhase::Succeeded, run.reason, None);
        done(r, a, Ok(()))
    }
}

/// Go on once the outbox is empty.
#[verifier::opaque]
pub open spec fn resume(run: RunModel, agent: AgentModel, cancelled: bool) -> Next {
    match run.point {
        Point::Opening => opened(run, agent, cancelled),
        Point::Injecting => inject(run, agent, cancelled),
        Point::Streaming => ask(run, agent, Point::Streaming, ActionModel::NextStreamEvent),
        Point::AssistantPublished => account(run, agent, cancelled),
        Point::UsagePublished => after_response(run, agent, cancelled),
        Point::FailedTurn => emit(
            run,
            agent,
            seq![EventKindModel::AgentEnd { messages: new_messages(run, agent) }],
            Point::FailedEnd,
        ),
        Point::FailedEnd => response_failed(run, agent, cancelled),
        Point::TruncatedStarted(i) => conclude(
            run,
            agent,
            i as int,
            truncated_result(run.calls[i as int]),
            Point::TruncatedEnded(i),
        ),
        Point::TruncatedEnded(i) => append(
            run,
            agent,
            i as int,
            truncated_result(run.calls[i as int]),
            Point::TruncatedAppended(i),
        ),
        Point::TruncatedAppended(i) => if i + 1 < run.calls.len() {
            announce(run, agent, i + 1, Point::TruncatedStarted((i + 1) as usize))
        } else {
            end_turn(RunModel { terminate: false, ..run }, agent)
        },
        Point::Started(i) => prepare(run, agent, i as int),
        Point::Refused(i) => after_refusal(run, agent, i as int),
        Point::Updated => after_updates(run, agent, cancelled),
        Point::PolledFlush(i) => ask(run, agent, Point::PolledFlush(i), ActionModel::FlushUpdates),
        Point::PolledEnded => next_sibling(run, agent),
        Point::Completed(i) => after_completion(run, agent, i as int, cancelled),
        Point::Flushing(i) => ask(run, agent, Point::Flushing(i), ActionModel::FlushUpdates),
        Point::ReviewedFlush(i) => ask(
            run,
            agent,
            Point::ReviewedFlush(i),
            ActionModel::FlushUpdates,
        ),
        Point::Ended(i) => if run.parallel {
            after_tool(run, agent)
        } else {
            append_slot(run, agent, i as int)
        },
        Point::Appended(i) => after_append(run, agent, i as int),
        Point::TurnEnded => turn_ended(run, agent, cancelled),
        Point::TurnStarted => inject(run, agent, cancelled),
        Point::Closing => closed(run, agent),
        Point::FailureTurn => emit(
            run,
            agent,
            seq![EventKindModel::AgentEnd { messages: new_messages(run, agent) }],
            Point::FailureEnd,
        ),
        Point::FailureEnd => {
            let error = run.error->0;
            let (r, a) = finish(
                run,
                agent,
                RunPhase::Failed,
                StopReason::Error,
                Some(error.text()),
            );
            done(r, a, Err(error))
        },
        Point::CancelTurn => emit(
            run,
            agent,
            seq![EventKindModel::AgentEnd { messages: new_messages(run, agent) }],
            Point::CancelEnd,
        ),
        Point::CancelEnd => {
            let (r, a) = finish(run, agent, RunPhase::Cancelled, StopReason::Aborted, None);
            done(r, a, Err(run.error->0))
        },
        _ => raise(run, agent, out_of_step(run), cancelled),
    }
}

/// The refusal of an outcome that does not answer the last action.
pub open spec fn out_of_step(run: RunModel) -> CoreErrorModel {
    refused("run"@, run.state.phase.spec_name(), "step"@)
}

/// The agent after a request to stop the run that owns it.
pub open spec fn aborted(run: RunModel, agent: AgentModel) -> AgentModel {
    if run.state.phase.terminal() {
        agent
    } else if run.state.phase == RunPhase::Created {
        AgentModel { state: agent.state.settled(None), active_run: None, ..agent }
    } else {
        AgentModel {
            state: AgentStateModel { phase: AgentPhase::Cancelling(run.state.id), ..agent.state },
            ..agent
        }
    }
}

/// Whether a point belongs to the settlement of a failed or cancelled run.
pub open spec fn settling(point: Point) -> bool {
    point == Point::FailureTurn || point == Point::FailureEnd || point == Point::CancelTurn
        || point == Point::CancelEnd
}

/// Whether a run waits at its point for the publication of an event.
pub open spec fn publishing(point: Point) -> bool {
    match point {
        Point::Opening | Point::Injecting | Point::Streaming | Point::AssistantPublished
        | Point::UsagePublished | Point::FailedTurn | Point::FailedEnd
        | Point::TruncatedStarted(_) | Point::TruncatedEnded(_) | Point::TruncatedAppended(_)
        | Point::Started(_) | Point::Refused(_) | Point::Updated | Point::PolledFlush(_)
        | Point::PolledEnded | Point::Completed(_) | Point::Flushing(_)
        | Point::ReviewedFlush(_) | Point::Ended(_) | Point::Appended(_) | Point::TurnEnded
        | Point::TurnStarted | Point::Closing | Point::FailureTurn | Point::FailureEnd
        | Point::CancelTurn | Point::CancelEnd => true,
        _ => false,
    }
}

/// The step of a run: what it and its agent become, and what the host does next, after the
/// outcome of the last action.
#[verifier::opaque]
pub open spec fn next(run: RunModel, agent: AgentModel, input: InputModel, cancelled: bool) -> Next {
    match input {
        InputModel::Drive => if run.point == Point::Created {
            start(run, agent, cancelled)
        } else {
            raise(
                run,
                agent,
                refused("run"@, run.state.phase.spec_name(), "start_turn"@),
                cancelled,
            )
        },
        InputModel::Published => if run.outbox.len() > 0 {
            publish(run, agent)
        } else if publishing(run.point) {
            resume(run, agent, cancelled)
        } else {
            raise(run, agent, out_of_step(run), cancelled)
        },
        InputModel::Failed(error) => if settling(run.point) {
            if run.outbox.len() > 0 {
                publish(run, agent)
            } else {
                resume(run, agent, cancelled)
            }
        } else {
            raise(run, agent, error, cancelled)
        },
        _ => if run.outbox.len() > 0 {
            raise(run, agent, out_of_step(run), cancelled)
        } else {
            match (run.point, input) {
                (Point::Transforming, InputModel::Context(context)) => ask(
                    run,
                    agent,
                    Point::Converting,
                    ActionModel::ConvertContext(context),
                ),
                (Point::Converting, InputModel::Converted(text)) => connect(
                    run,
                    agent,
                    text,
                    cancelled,
                ),
                (Point::Connecting, InputModel::Connected) => ask(
                    RunModel { stream: StreamModel::fresh(), ..run },
                    agent,
                    Point::Streaming,
                    ActionModel::NextStreamEvent,
                ),
                (Point::Streaming, InputModel::Stream(Some(event))) => streamed(
                    run,
                    agent,
                    event,
                    cancelled,
                ),
                (Point::Streaming, InputModel::Stream(None)) => stream_ended(
                    run,
                    agent,
                    cancelled,
                ),
                (Point::Validating(i), InputModel::Validated(verdict)) => validated(
                    run,
                    agent,
                    i as int,
                    verdict,
                    cancelled,
                ),
                (Point::Deciding(i), InputModel::Before(decision)) => decided(
                    run,
                    agent,
                    i as int,
                    decision,
                    cancelled,
                ),
                (Point::Launching, InputModel::Launched) => ask(
                    run,
                    agent,
                    Point::Running,
                    ActionModel::AwaitTools,
                ),
                (Point::Running, InputModel::Updates(updates)) => progressed(
                    run,
                    agent,
                    updates,
                    cancelled,
                ),
                (
                    Point::Running,
                    InputModel::Completed { index, execution, updates },
                ) => if run.running.contains(index) {
                    completed(run, agent, index, execution, updates, cancelled)
                } else {
                    raise(run, agent, out_of_step(run), cancelled)
                },
                (Point::Polling(i), InputModel::Polled(execution)) => ask(
                    RunModel { execution, ..run },
                    agent,
                    Point::PolledFlush(i),
                    ActionModel::FlushUpdates,
                ),
                (Point::PolledFlush(i), InputModel::Flushed(updates)) => if updates.len() == 0 {
                    sibling_flushed(run, agent, i as int, cancelled)
                } else {
                    flushed(run, agent, updates, Point::PolledFlush(i))
                },
                (Point::PolledReview(i), InputModel::After(review)) => {
                    let result = reviewed(run.calls[i as int], run.result->0, review);
                    settle_tool(
                        run,
                        agent,
                        i as int,
                        SlotModel {
                            result: Some(result),
                            terminate: asks_to_stop(result, review),
                        },
                        Point::PolledEnded,
                    )
                },
                (Point::Flushing(i), InputModel::Flushed(updates)) => if updates.len() == 0 {
                    review(
                        run,
                        agent,
                        i as int,
                        run.execution->0,
                        Point::Reviewing(i),
                        cancelled,
                    )
                } else {
                    flushed(run, agent, updates, Point::Flushing(i))
                },
                (Point::Reviewing(i), InputModel::After(review)) => after_review(
                    run,
                    agent,
                    i as int,
                    review,
                ),
                (Point::ReviewedFlush(i), InputModel::Flushed(updates)) => if updates.len() == 0 {
                    conclude(
                        run,
                        agent,
                        i as int,
                        run.slots[i as int].result->0,
                        Point::Ended(i),
                    )
                } else {
                    flushed(run, agent, updates, Point::ReviewedFlush(i))
                },
                (Point::Preparing, InputModel::NextTurn(next_turn)) => prepared(
                    run,
                    agent,
                    next_turn,
                ),
                (Point::Asking, InputModel::Stop(stop)) => answered(run, agent, stop, cancelled),
                _ => raise(run, agent, out_of_step(run), cancelled),
            }
        },
    }
}

// ---------------------------------------------------------------------------------------------
// What every step keeps.
// ---------------------------------------------------------------------------------------------

impl RunModel {
    /// A run before its first step.
    pub open spec fn created(
        id: RunId,
        initial_messages: Seq<MessageModel>,
        message_start_index: nat,
        skip_initial_steering: bool,
    ) -> RunModel {
        RunModel {
            state: RunStateModel::created(id),
            initial_messages,
            message_start_index,
            skip_initial_steering,
            point: Point::Created,
            outbox: Seq::empty(),
            turn_id: TurnId(1),
            model_override: None,
            thinking_override: None,
            context: None,
            queued: Seq::empty(),
            request: None,
            stream: StreamModel::fresh(),
            turn_model: None,
            calls: Seq::empty(),
            reason: StopReason::EndTurn,
            parallel: false,
            slots: Seq::empty(),
            running: Seq::empty(),
            siblings: Seq::empty(),
            updated: Seq::empty(),
            execution: None,
            result: None,
            terminate: false,
            error: None,
        }
    }

    /// The run after a request to stop: one that was never driven is cancelled at once.
    pub open spec fn stopped(self) -> RunModel {
        if self.state.phase == RunPhase::Created {
            RunModel {
                state: RunStateModel {
                    phase: RunPhase::Cancelled,
                    stop_reason: Some(StopReason::Cancelled),
                    ..self.state
                },
                ..self
            }
        } else {
            self
        }
    }

    /// Whether a call of the batch has its result.
    pub open spec fn settled(self, j: int) -> bool {
        self.slots[j].result is Some
    }

    /// Whether a call of the batch has its result, or its tool executes, or it waits to be
    /// polled.
    pub open spec fn covered(self, j: int) -> bool {
        self.settled(j) || self.running.contains(j as usize) || self.siblings.contains(j as usize)
    }

    /// Whether each of the first `n` calls is covered.
    pub open spec fn covers(self, n: int) -> bool {
        forall|j: int| 0 <= j < n ==> #[trigger] self.covered(j)
    }

    /// Whether all calls but one are covered.
    pub open spec fn covers_but(self, i: int) -> bool {
        forall|j: int| 0 <= j < self.calls.len() && j != i ==> #[trigger] self.covered(j)
    }

    /// Whether indices are those of calls of the batch.
    pub open spec fn indices(self, s: Seq<usize>) -> bool {
        forall|k: int| 0 <= k < s.len() ==> #[trigger] s[k] < self.calls.len()
    }

    /// Whether the batch has one slot for each call, and names only its own calls.
    pub open spec fn batched(self) -> bool {
        &&& self.slots.len() == self.calls.len()
        &&& self.indices(self.running)
        &&& self.indices(self.siblings)
    }

    /// What holds of a run between two steps: indices are in range, what the point needs is
    /// there, and no call of a parallel batch is without result, execution or poll to come.
    pub open spec fn wf(self) -> bool {
        let n = self.calls.len();
        match self.point {
            Point::TruncatedStarted(i) => i < n,
            Point::TruncatedEnded(i) => i < n,
            Point::TruncatedAppended(i) => i < n,
            Point::Started(i) | Point::Validating(i) | Point::Deciding(i) => {
                &&& i < n
                &&& self.batched()
                &&& self.siblings.len() == 0
                &&& self.parallel ==> self.covers(i as int)
                &&& !self.parallel ==> self.running.len() == 0
            },
            Point::Refused(i) => {
                &&& i < n
                &&& self.batched()
                &&& self.siblings.len() == 0
                &&& self.settled(i as int)
                &&& self.parallel ==> self.covers(i as int)
            },
            Point::Launching | Point::Running | Point::Updated => {
                &&& self.batched()
                &&& self.siblings.len() == 0
                &&& n > 0
                &&& self.parallel ==> self.covers(n as int)
            },
            Point::Polling(i) | Point::PolledFlush(i) | Point::PolledReview(i) => {
                &&& i < n
                &&& self.batched()
                &&& self.parallel
                &&& self.covers_but(i as int)
                &&& self.point == Point::PolledReview(i) ==> self.result is Some
            },
            Point::PolledEnded => {
                &&& self.batched()
                &&& n > 0
                &&& self.parallel
                &&& self.covers(n as int)
            },
            Point::Completed(i) | Point::Flushing(i) | Point::Reviewing(i) => {
                &&& i < n
                &&& self.batched()
                &&& self.siblings.len() == 0
                &&& self.parallel ==> self.covers_but(i as int)
                &&& self.point != Point::Reviewing(i) ==> self.execution is Some
                &&& self.point == Point::Reviewing(i) ==> self.result is Some
            },
            Point::ReviewedFlush(i) | Point::Ended(i) => {
                &&& i < n
                &&& self.batched()
                &&& self.siblings.len() == 0
                &&& self.settled(i as int)
                &&& self.parallel ==> self.covers(n as int)
            },
            Point::Appended(i) => {
                &&& i < n
                &&& self.batched()
                &&& self.siblings.len() == 0
                &&& self.parallel ==> self.running.len() == 0 && self.covers(n as int)
            },
            Point::Converting => self.request is Some,
            Point::Transforming => self.request is Some,
            Point::Preparing => self.context is Some,
            Point::FailureTurn | Point::FailureEnd | Point::CancelTurn | Point::CancelEnd => {
                self.error is Some
            },
            _ => true,
        }
    }
}

/// The invariant speaks only of the batch, the point and what the point needs.
pub proof fn lemma_wf_depends(a: RunModel, b: RunModel)
    requires
        a.calls == b.calls,
        a.slots == b.slots,
        a.running == b.running,
        a.siblings == b.siblings,
        a.parallel == b.parallel,
        a.point == b.point,
        a.request is Some == b.request is Some,
        a.context is Some == b.context is Some,
        a.error is Some == b.error is Some,
        a.execution is Some == b.execution is Some,
        a.result is Some == b.result is Some,
    ensures
        a.wf() == b.wf(),
        forall|n: int| a.covers(n) == b.covers(n),
        forall|i: int| a.covers_but(i) == b.covers_but(i),
{
    assert forall|n: int| a.covers(n) == b.covers(n) by {
        if a.covers(n) {
            assert forall|j: int| 0 <= j < n implies #[trigger] b.covered(j) by {
                assert(a.covered(j));
            }
        }
        if b.covers(n) {
            assert forall|j: int| 0 <= j < n implies #[trigger] a.covered(j) by {
                assert(b.covered(j));
            }
        }
    }
    assert forall|i: int| a.covers_but(i) == b.covers_but(i) by {
        if a.covers_but(i) {
            assert forall|j: int| 0 <= j < b.calls.len() && j != i implies #[trigger] b.covered(
                j,
            ) by {
                assert(a.covered(j));
            }
        }
        if b.covers_but(i) {
            assert forall|j: int| 0 <= j < a.calls.len() && j != i implies #[trigger] a.covered(
                j,
            ) by {
                assert(b.covered(j));
            }
        }
    }
}

/// Publishing keeps the invariant.
proof fn lemma_publish_wf(run: RunModel, agent: AgentModel)
    ensures
        publish(run, agent).run.wf() == run.wf(),
{
    lemma_wf_depends(run, publish(run, agent).run);
}

/// Waiting at a point keeps the invariant of that point.
proof fn lemma_emit_wf(run: RunModel, agent: AgentModel, kinds: Seq<EventKindModel>, point: Point)
    ensures
        emit(run, agent, kinds, point).run.wf() == (RunModel { point, ..run }).wf(),
{
    let posted = RunModel { outbox: kinds, point, ..run };
    lemma_publish_wf(posted, agent);
    lemma_wf_depends(posted, RunModel { point, ..run });
}

proof fn lemma_raise_wf(run: RunModel, agent: AgentModel, error: CoreErrorModel, cancelled: bool)
    ensures
        raise(run, agent, error, cancelled).run.wf(),
{
    reveal(raise);
    reveal(settle_failure);
    reveal(settle_cancellation);
}

proof fn lemma_append_slot_wf(run: RunModel, agent: AgentModel, i: int)
    requires
        0 <= i < run.calls.len() <= usize::MAX,
        run.batched(),
        run.siblings.len() == 0,
        run.parallel ==> run.running.len() == 0 && run.covers(run.calls.len() as int),
    ensures
        append_slot(run, agent, i).run.wf(),
{
    reveal(append_slot);
    reveal(append);
    let after = append_slot(run, agent, i).run;
    let marked = RunModel { point: Point::Appended(i as usize), ..run };
    lemma_wf_depends(marked, after);
    lemma_wf_depends(marked, RunModel { point: marked.point, ..run });
    if run.parallel {
        assert forall|j: int| 0 <= j < run.calls.len() implies #[trigger] marked.covered(j) by {
            assert(run.covered(j));
        }
    }
}

proof fn lemma_announce_or_launch_wf(run: RunModel, agent: AgentModel, i: int)
    requires
        0 <= i <= run.calls.len() <= usize::MAX,
        run.calls.len() > 0,
        run.parallel,
        run.batched(),
        run.siblings.len() == 0,
        run.covers(i),
    ensures
        announce_or_launch(run, agent, i).run.wf(),
{
    reveal(announce_or_launch);
    reveal(announce);
    let after = announce_or_launch(run, agent, i).run;
    if i < run.calls.len() {
        let marked = RunModel { point: Point::Started(i as usize), ..run };
        lemma_wf_depends(marked, after);
        assert forall|j: int| 0 <= j < i implies #[trigger] marked.covered(j) by {
            assert(run.covered(j));
        }
    } else if run.running.len() == 0 {
        lemma_append_slot_wf(run, agent, 0);
    } else {
        let marked = RunModel { point: Point::Launching, ..run };
        lemma_wf_depends(marked, after);
        assert forall|j: int| 0 <= j < run.calls.len() implies #[trigger] marked.covered(j) by {
            assert(run.covered(j));
        }
    }
}

/// Filling a slot covers its call and uncovers none.
proof fn lemma_slot_covers(run: RunModel, i: int, slot: SlotModel)
    requires
        run.batched(),
        0 <= i < run.calls.len(),
        slot.result is Some,
    ensures
        ({
            let filled = RunModel { slots: run.slots.update(i, slot), ..run };
            &&& filled.batched()
            &&& filled.settled(i)
            &&& forall|j: int|
                0 <= j < run.calls.len() && run.covered(j) ==> #[trigger] filled.covered(j)
            &&& run.covers_but(i) ==> filled.covers(run.calls.len() as int)
        }),
{
    let filled = RunModel { slots: run.slots.update(i, slot), ..run };
    assert(filled.settled(i));
    assert forall|j: int| 0 <= j < run.calls.len() && run.covered(j) implies #[trigger]
        filled.covered(j) by {
        if j != i {
            assert(filled.slots[j] == run.slots[j]);
        }
    }
    if run.covers_but(i) {
        assert forall|j: int| 0 <= j < run.calls.len() implies #[trigger] filled.covered(j) by {
            if j != i {
                assert(run.covered(j));
            }
        }
    }
}

proof fn lemma_refuse_wf(
    run: RunModel,
    agent: AgentModel,
    i: int,
    result: ToolResultModel,
    terminate: bool,
)
    requires
        0 <= i < run.calls.len() <= usize::MAX,
        run.batched(),
        run.siblings.len() == 0,
        run.parallel ==> run.covers(i),
    ensures
        refuse(run, agent, i, result, terminate).run.wf(),
{
    reveal(refuse);
    reveal(conclude);
    let slot = SlotModel { result: Some(result), terminate };
    lemma_slot_covers(run, i, slot);
    let filled = RunModel { slots: run.slots.update(i, slot), ..run };
    let marked = RunModel { point: Point::Refused(i as usize), ..filled };
    lemma_wf_depends(marked, refuse(run, agent, i, result, terminate).run);
    if run.parallel {
        assert forall|j: int| 0 <= j < i implies #[trigger] marked.covered(j) by {
            assert(run.covered(j));
            assert(filled.covered(j));
        }
    }
}

proof fn lemma_decided_wf(
    run: RunModel,
    agent: AgentModel,
    i: int,
    decision: Result<BeforeModel, Seq<char>>,
    cancelled: bool,
)
    requires
        0 <= i < run.calls.len() <= usize::MAX,
        run.batched(),
        run.siblings.len() == 0,
        run.parallel ==> run.covers(i),
        !run.parallel ==> run.running.len() == 0,
    ensures
        decided(run, agent, i, decision, cancelled).run.wf(),
{
    reveal(decided);
    let call = run.calls[i];
    match decision {
        Err(text) => lemma_refuse_wf(
            run,
            agent,
            i,
            ToolResultModel::failed(call.id, text),
            false,
        ),
        Ok(BeforeModel::Block { reason }) => lemma_refuse_wf(
            run,
            agent,
            i,
            ToolResultModel::failed(call.id, reason),
            false,
        ),
        Ok(BeforeModel::Terminate { reason }) => lemma_refuse_wf(
            run,
            agent,
            i,
            ToolResultModel::failed(call.id, reason),
            true,
        ),
        Ok(BeforeModel::Allow) => if cancelled {
            lemma_refuse_wf(
                run,
                agent,
                i,
                ToolResultModel::failed(call.id, "Operation aborted"@),
                false,
            );
        } else {
            let grown = RunModel { running: run.running.push(i as usize), ..run };
            assert(grown.indices(grown.running)) by {
                assert forall|k: int| 0 <= k < grown.running.len() implies #[trigger]
                    grown.running[k] < grown.calls.len() by {
                    if k < run.running.len() {
                        assert(grown.running[k] == run.running[k]);
                    }
                }
            }
            assert(grown.running[run.running.len() as int] == i as usize);
            if run.parallel {
                assert forall|j: int| 0 <= j < i + 1 implies #[trigger] grown.covered(j) by {
                    if j < i {
                        assert(run.covered(j));
                        if run.running.contains(j as usize) {
                            let k = choose|k: int|
                                0 <= k < run.running.len() && run.running[k] == j as usize;
                            assert(grown.running[k] == j as usize);
                        }
                    } else {
                        assert(grown.running.contains(i as usize));
                    }
                }
                lemma_announce_or_launch_wf(grown, agent, i + 1);
            }
        },
    }
}

proof fn lemma_after_tool_wf(run: RunModel, agent: AgentModel)
    requires
        run.batched(),
        0 < run.calls.len() <= usize::MAX,
        run.siblings.len() == 0,
        run.parallel,
        run.covers(run.calls.len() as int),
    ensures
        after_tool(run, agent).run.wf(),
{
    reveal(after_tool);
    if run.running.len() == 0 {
        lemma_append_slot_wf(run, agent, 0);
    } else {
        let marked = RunModel { point: Point::Running, ..run };
        assert forall|j: int| 0 <= j < run.calls.len() implies #[trigger] marked.covered(j) by {
            assert(run.covered(j));
        }
    }
}

proof fn lemma_next_sibling_wf(run: RunModel, agent: AgentModel)
    requires
        run.batched(),
        0 < run.calls.len() <= usize::MAX,
        run.parallel,
        run.covers(run.calls.len() as int),
    ensures
        next_sibling(run, agent).run.wf(),
{
    reveal(next_sibling);
    if run.siblings.len() == 0 {
        lemma_after_tool_wf(run, agent);
    } else {
        let i = run.siblings[0];
        let after = next_sibling(run, agent).run;
        assert forall|k: int| 0 <= k < after.siblings.len() implies #[trigger] after.siblings[k]
            < after.calls.len() by {
            assert(after.siblings[k] == run.siblings[k + 1]);
        }
        assert forall|j: int| 0 <= j < run.calls.len() && j != i as int implies #[trigger]
            after.covered(j) by {
            assert(run.covered(j));
            if run.siblings.contains(j as usize) {
                let k = choose|k: int|
                    0 <= k < run.siblings.len() && run.siblings[k] == j as usize;
                assert(k > 0);
                assert(after.siblings[k - 1] == j as usize);
            }
        }
    }
}

proof fn lemma_after_updates_wf(run: RunModel, agent: AgentModel, cancelled: bool)
    requires
        run.batched(),
        0 < run.calls.len() <= usize::MAX,
        run.siblings.len() == 0,
        run.parallel ==> run.covers(run.calls.len() as int),
    ensures
        after_updates(run, agent, cancelled).run.wf(),
{
    reveal(after_updates);
    if run.parallel && cancelled {
        lemma_split_covers(run);
        lemma_next_sibling_wf(
            RunModel {
                running: kept(run, run.running, true),
                siblings: kept(run, run.running, false),
                ..run
            },
            agent,
        );
    } else {
        let marked = RunModel { point: Point::Running, ..run };
        if run.parallel {
            assert forall|j: int| 0 <= j < run.calls.len() implies #[trigger] marked.covered(
                j,
            ) by {
                assert(run.covered(j));
            }
        }
    }
}

proof fn lemma_settle_tool_wf(
    run: RunModel,
    agent: AgentModel,
    i: int,
    slot: SlotModel,
    point: Point,
)
    requires
        0 <= i < run.calls.len() <= usize::MAX,
        run.batched(),
        slot.result is Some,
        run.parallel ==> run.covers_but(i),
        (point == Point::PolledEnded && run.parallel) || (point == Point::Ended(i as usize)
            && run.siblings.len() == 0),
    ensures
        settle_tool(run, agent, i, slot, point).run.wf(),
{
    reveal(settle_tool);
    reveal(conclude);
    lemma_slot_covers(run, i, slot);
    let filled = RunModel { slots: run.slots.update(i, slot), ..run };
    let marked = RunModel { result: None, execution: None, point, ..filled };
    lemma_wf_depends(marked, settle_tool(run, agent, i, slot, point).run);
    if run.parallel {
        assert forall|j: int| 0 <= j < run.calls.len() implies #[trigger] marked.covered(j) by {
            assert(filled.covered(j));
        }
    }
}

/// What [`place`] finds.
proof fn lemma_place(s: Seq<usize>, x: usize)
    requires
        s.contains(x),
    ensures
        0 <= place(s, x) < s.len(),
        s[place(s, x)] == x,
    decreases s.len(),
{
    if s[0] != x {
        let k = choose|k: int| 0 <= k < s.len() && s[k] == x;
        assert(s.drop_first()[k - 1] == x);
        lemma_place(s.drop_first(), x);
    }
}

proof fn lemma_completed_wf(
    run: RunModel,
    agent: AgentModel,
    index: usize,
    execution: Result<ToolResultModel, ToolErrorModel>,
    updates: Seq<PendingUpdateModel>,
    cancelled: bool,
)
    requires
        run.batched(),
        run.siblings.len() == 0,
        0 < run.calls.len() <= usize::MAX,
        run.parallel ==> run.covers(run.calls.len() as int),
        run.running.contains(index),
    ensures
        completed(run, agent, index, execution, updates, cancelled).run.wf(),
{
    reveal(completed);
    lemma_place(run.running, index);
    let at = place(run.running, index);
    let shrunk = RunModel {
        running: run.running.update(at, run.running.last()).drop_last(),
        execution: Some(execution),
        ..run
    };
    let i = index as int;
    assert(run.running[at] < run.calls.len());
    assert forall|k: int| 0 <= k < shrunk.running.len() implies #[trigger] shrunk.running[k]
        < shrunk.calls.len() by {
        if k == at {
            assert(run.running[run.running.len() - 1] < run.calls.len());
        } else {
            assert(shrunk.running[k] == run.running[k]);
        }
    }
    if run.parallel {
        assert forall|j: int| 0 <= j < run.calls.len() && j != i implies #[trigger]
            shrunk.covered(j) by {
            assert(run.covered(j));
            if run.running.contains(j as usize) {
                let k = choose|k: int|
                    0 <= k < run.running.len() && run.running[k] == j as usize;
                if k == run.running.len() - 1 {
                    assert(shrunk.running[at] == j as usize);
                } else {
                    assert(k != at);
                    assert(shrunk.running[k] == j as usize);
                }
            }
        }
    }
    let after = completed(run, agent, index, execution, updates, cancelled).run;
    if updates.len() > 0 {
        let marked = RunModel { point: Point::Completed(index), ..shrunk };
        lemma_wf_depends(marked, after);
        lemma_marked(shrunk, Point::Completed(index), i);
    } else {
        lemma_after_completion_wf(shrunk, agent, i, cancelled);
    }
}

/// A run covers the same calls at every point.
proof fn lemma_marked(run: RunModel, point: Point, i: int)
    ensures
        run.covers_but(i) ==> (RunModel { point, ..run }).covers_but(i),
        run.covers(run.calls.len() as int) ==> (RunModel { point, ..run }).covers(
            run.calls.len() as int,
        ),
        run.covers(i) ==> (RunModel { point, ..run }).covers(i),
{
    let marked = RunModel { point, ..run };
    assert(forall|j: int| run.covered(j) == #[trigger] marked.covered(j));
}

proof fn lemma_after_completion_wf(run: RunModel, agent: AgentModel, i: int, cancelled: bool)
    requires
        run.batched(),
        run.siblings.len() == 0,
        0 <= i < run.calls.len() <= usize::MAX,
        run.parallel ==> run.covers_but(i),
        run.execution is Some,
    ensures
        after_completion(run, agent, i, cancelled).run.wf(),
{
    reveal(after_completion);
    reveal(review);
    lemma_raise_wf(run, agent, refused("agent"@, "not-running"@, "current_context"@), cancelled);
    lemma_marked(run, Point::Reviewing(i as usize), i);
    lemma_marked(run, Point::Flushing(i as usize), i);
    let after = after_completion(run, agent, i, cancelled).run;
    if run.parallel && owner(agent.state.phase) is Some {
        let result = normalized(run.calls[i], run.execution->0);
        let marked = RunModel {
            result: Some(result),
            execution: None,
            point: Point::Reviewing(i as usize),
            ..run
        };
        assert(forall|j: int| run.covered(j) == #[trigger] marked.covered(j));
        lemma_wf_depends(marked, after);
    }
}

proof fn lemma_review_wf(
    run: RunModel,
    agent: AgentModel,
    i: int,
    execution: Result<ToolResultModel, ToolErrorModel>,
    point: Point,
    cancelled: bool,
)
    requires
        run.batched(),
        0 <= i < run.calls.len() <= usize::MAX,
        run.parallel ==> run.covers_but(i),
        (point == Point::PolledReview(i as usize) && run.parallel) || (point == Point::Reviewing(
            i as usize,
        ) && run.siblings.len() == 0),
    ensures
        review(run, agent, i, execution, point, cancelled).run.wf(),
{
    reveal(review);
    lemma_raise_wf(run, agent, refused("agent"@, "not-running"@, "current_context"@), cancelled);
    if owner(agent.state.phase) is Some {
        let result = normalized(run.calls[i], execution);
        let marked = RunModel { result: Some(result), execution: None, point, ..run };
        assert(forall|j: int| run.covered(j) == #[trigger] marked.covered(j));
    }
}

proof fn lemma_after_review_wf(
    run: RunModel,
    agent: AgentModel,
    i: int,
    verdict: Result<AfterModel, Seq<char>>,
)
    requires
        run.batched(),
        run.siblings.len() == 0,
        0 <= i < run.calls.len() <= usize::MAX,
        run.parallel ==> run.covers_but(i),
    ensures
        after_review(run, agent, i, verdict).run.wf(),
{
    reveal(after_review);
    let result = reviewed(run.calls[i], run.result->0, verdict);
    let slot = SlotModel { result: Some(result), terminate: asks_to_stop(result, verdict) };
    if run.parallel {
        lemma_slot_covers(run, i, slot);
        let filled = RunModel { slots: run.slots.update(i, slot), ..run };
        let marked = RunModel {
            result: None,
            point: Point::ReviewedFlush(i as usize),
            ..filled
        };
        assert(forall|j: int| filled.covered(j) == #[trigger] marked.covered(j));
    } else {
        lemma_settle_tool_wf(run, agent, i, slot, Point::Ended(i as usize));
    }
}

proof fn lemma_after_append_wf(run: RunModel, agent: AgentModel, i: int)
    requires
        run.wf(),
        run.point == Point::Appended(i as usize),
        0 <= i < run.calls.len() <= usize::MAX,
    ensures
        after_append(run, agent, i).run.wf(),
{
    reveal(after_append);
    reveal(announce);
    reveal(end_turn);
    if i + 1 < run.calls.len() {
        if run.parallel {
            lemma_append_slot_wf(run, agent, i + 1);
        } else {
            let marked = RunModel {
                running: Seq::empty(),
                point: Point::Started((i + 1) as usize),
                ..run
            };
            lemma_wf_depends(marked, after_append(run, agent, i).run);
        }
    }
}

proof fn lemma_after_response_wf(run: RunModel, agent: AgentModel, cancelled: bool)
    requires
        run.calls.len() <= usize::MAX,
    ensures
        after_response(run, agent, cancelled).run.wf(),
{
    reveal(after_response);
    reveal(end_turn);
    reveal(announce);
    lemma_raise_wf(
        run,
        agent,
        CoreErrorModel::UnsupportedModelStream {
            message: "assistant emitted tool calls with terminal reason "@ + reason_name(run.reason)
                + ", expected ToolUse"@,
        },
        cancelled,
    );
    let after = after_response(run, agent, cancelled).run;
    if run.reason == StopReason::ToolUse && run.calls.len() > 0 {
        let fresh = RunModel {
            parallel: !wants_sequence(run, agent),
            slots: Seq::new(
                run.calls.len(),
                |i: int| SlotModel { result: None, terminate: false },
            ),
            running: Seq::empty(),
            siblings: Seq::empty(),
            terminate: true,
            point: Point::Started(0),
            ..run
        };
        lemma_wf_depends(fresh, after);
    }
}

/// Splitting the executing tools loses none of them.
pub proof fn lemma_split_covers(run: RunModel)
    requires
        run.batched(),
    ensures
        ({
            let split = RunModel {
                running: kept(run, run.running, true),
                siblings: kept(run, run.running, false),
                ..run
            };
            &&& split.batched()
            &&& run.siblings.len() == 0 && run.covers(run.calls.len() as int) ==> split.covers(
                run.calls.len() as int,
            )
        }),
{
    let split = RunModel {
        running: kept(run, run.running, true),
        siblings: kept(run, run.running, false),
        ..run
    };
    lemma_kept(run, run.running);
    assert forall|k: int| 0 <= k < split.running.len() implies #[trigger] split.running[k]
        < split.calls.len() by {
        assert(split.running.contains(split.running[k]));
        let j = choose|j: int| 0 <= j < run.running.len() && run.running[j] == split.running[k];
        assert(run.running[j] < run.calls.len());
    }
    assert forall|k: int| 0 <= k < split.siblings.len() implies #[trigger] split.siblings[k]
        < split.calls.len() by {
        assert(split.siblings.contains(split.siblings[k]));
        let j = choose|j: int| 0 <= j < run.running.len() && run.running[j] == split.siblings[k];
        assert(run.running[j] < run.calls.len());
    }
    if run.siblings.len() == 0 && run.covers(run.calls.len() as int) {
        assert forall|j: int| 0 <= j < run.calls.len() implies #[trigger] split.covered(j) by {
            assert(run.covered(j));
            if run.running.contains(j as usize) {
                assert(split.running.contains(j as usize) || split.siblings.contains(j as usize));
            }
        }
    }
}

proof fn lemma_kept(run: RunModel, indices: Seq<usize>)
    ensures
        forall|x: usize| #[trigger]
            indices.contains(x) ==> kept(run, indices, true).contains(x) || kept(
                run,
                indices,
                false,
            ).contains(x),
        forall|x: usize| #[trigger] kept(run, indices, true).contains(x) ==> indices.contains(x),
        forall|x: usize| #[trigger] kept(run, indices, false).contains(x) ==> indices.contains(x),
    decreases indices.len(),
{
    if indices.len() > 0 {
        let rest = indices.drop_last();
        let last = indices.last();
        lemma_kept(run, rest);
        let a = kept(run, indices, true);
        let b = kept(run, indices, false);
        let ra = kept(run, rest, true);
        let rb = kept(run, rest, false);
        assert forall|x: usize| #[trigger] indices.contains(x) implies a.contains(x) || b.contains(
            x,
        ) by {
            let j = choose|j: int| 0 <= j < indices.len() && indices[j] == x;
            if j < rest.len() {
                assert(rest[j] == x);
                assert(rest.contains(x));
                if ra.contains(x) {
                    let k = choose|k: int| 0 <= k < ra.len() && ra[k] == x;
                    assert(a[k] == x);
                } else {
                    let k = choose|k: int| 0 <= k < rb.len() && rb[k] == x;
                    assert(b[k] == x);
                }
            } else if reported(run, last) {
                assert(a[ra.len() as int] == x);
            } else {
                assert(b[rb.len() as int] == x);
            }
        }
        assert forall|x: usize| #[trigger] a.contains(x) implies indices.contains(x) by {
            let k = choose|k: int| 0 <= k < a.len() && a[k] == x;
            if k < ra.len() {
                assert(ra[k] == x);
                assert(ra.contains(x));
                let j = choose|j: int| 0 <= j < rest.len() && rest[j] == x;
                assert(indices[j] == x);
            } else {
                assert(indices[indices.len() - 1] == x);
            }
        }
        assert forall|x: usize| #[trigger] b.contains(x) implies indices.contains(x) by {
            let k = choose|k: int| 0 <= k < b.len() && b[k] == x;
            if k < rb.len() {
                assert(rb[k] == x);
                assert(rb.contains(x));
                let j = choose|j: int| 0 <= j < rest.len() && rest[j] == x;
                assert(indices[j] == x);
            } else {
                assert(indices[indices.len() - 1] == x);
            }
        }
    }
}

proof fn lemma_request_model_wf(run: RunModel, agent: AgentModel, cancelled: bool)
    ensures
        request_model(run, agent, cancelled).run.wf(),
{
    reveal(request_model);
    lemma_raise_wf(run, agent, refused("agent"@, "not-running"@, "model_request"@), cancelled);
    lemma_raise_wf(run, agent, CoreErrorModel::Cancelled, cancelled);
}

proof fn lemma_inject_wf(run: RunModel, agent: AgentModel, cancelled: bool)
    ensures
        inject(run, agent, cancelled).run.wf(),
{
    reveal(inject);
    lemma_request_model_wf(run, agent, cancelled);
}

proof fn lemma_opened_wf(run: RunModel, agent: AgentModel, cancelled: bool)
    ensures
        opened(run, agent, cancelled).run.wf(),
{
    reveal(opened);
    lemma_request_model_wf(RunModel { context: None, ..run }, agent, cancelled);
    lemma_raise_wf(run, agent, refused("agent"@, "not-running"@, "current_context"@), cancelled);
    lemma_inject_wf(
        RunModel {
            context: Some(context_of(agent)),
            queued: agent.queues.steering.drained(agent.steering),
            ..run
        },
        AgentModel {
            queues: QueuesModel {
                steering: agent.queues.steering.after_drain(agent.steering),
                ..agent.queues
            },
            ..agent
        },
        cancelled,
    );
}

proof fn lemma_start_wf(run: RunModel, agent: AgentModel, cancelled: bool)
    ensures
        start(run, agent, cancelled).run.wf(),
{
    reveal(start);
    lemma_raise_wf(
        run,
        agent,
        refused("run"@, run.state.phase.spec_name(), "start_turn"@),
        cancelled,
    );
    let running = RunModel {
        state: RunStateModel { phase: RunPhase::Running, turn_id: Some(TurnId(1)), ..run.state },
        turn_id: TurnId(1),
        ..run
    };
    lemma_raise_wf(running, agent, refused("agent"@, "not-running"@, "drive"@), cancelled);
}

proof fn lemma_connect_wf(run: RunModel, agent: AgentModel, text: Seq<char>, cancelled: bool)
    ensures
        connect(run, agent, text, cancelled).run.wf(),
{
    reveal(connect);
    let request = RequestModel { context: text, ..run.request->0 };
    lemma_raise_wf(
        RunModel { request: None, turn_model: request.model, ..run },
        agent,
        CoreErrorModel::MissingModelProvider,
        cancelled,
    );
}

proof fn lemma_streamed_wf(
    run: RunModel,
    agent: AgentModel,
    event: StreamEventModel,
    cancelled: bool,
)
    ensures
        streamed(run, agent, event, cancelled).run.wf(),
{
    reveal(streamed);
    lemma_raise_wf(
        run,
        agent,
        CoreErrorModel::UnsupportedModelStream {
            message: "model stream contained events after its terminal event"@,
        },
        cancelled,
    );
}

proof fn lemma_stream_ended_wf(run: RunModel, agent: AgentModel, cancelled: bool)
    ensures
        stream_ended(run, agent, cancelled).run.wf(),
{
    reveal(stream_ended);
    lemma_raise_wf(
        run,
        agent,
        CoreErrorModel::UnsupportedModelStream {
            message: "model stream ended without a terminal event"@,
        },
        cancelled,
    );
}

proof fn lemma_account_wf(run: RunModel, agent: AgentModel, cancelled: bool)
    requires
        run.calls.len() <= usize::MAX,
    ensures
        account(run, agent, cancelled).run.wf(),
{
    reveal(account);
    lemma_after_response_wf(run, agent, cancelled);
}

proof fn lemma_turn_ended_wf(run: RunModel, agent: AgentModel, cancelled: bool)
    ensures
        turn_ended(run, agent, cancelled).run.wf(),
{
    reveal(turn_ended);
    lemma_raise_wf(run, agent, refused("agent"@, "not-running"@, "current_context"@), cancelled);
}

proof fn lemma_answered_wf(run: RunModel, agent: AgentModel, stop: bool, cancelled: bool)
    ensures
        answered(run, agent, stop, cancelled).run.wf(),
{
    reveal(answered);
    reveal(close);
    lemma_raise_wf(
        RunModel {
            turn_id: TurnId(saturating_sum(run.turn_id.0, 1)),
            queued: next_queued(agent, wants_response(run)),
            ..run
        },
        after_queued(agent, wants_response(run)),
        refused("run"@, run.state.phase.spec_name(), "advance_turn"@),
        cancelled,
    );
}

proof fn lemma_truncated_wf(run: RunModel, agent: AgentModel, cancelled: bool)
    requires
        run.wf(),
        run.calls.len() <= usize::MAX,
        run.point is TruncatedStarted || run.point is TruncatedEnded
            || run.point is TruncatedAppended,
    ensures
        resume(run, agent, cancelled).run.wf(),
{
    reveal(resume);
    reveal(conclude);
    reveal(append);
    reveal(announce);
    reveal(end_turn);
}

proof fn lemma_closing_wf(run: RunModel, agent: AgentModel, cancelled: bool)
    requires
        run.wf(),
        run.point is FailedTurn || run.point is FailedEnd || run.point is Closing
            || run.point is FailureTurn || run.point is FailureEnd || run.point is CancelTurn
            || run.point is CancelEnd || run.point is Streaming,
    ensures
        resume(run, agent, cancelled).run.wf(),
{
    reveal(resume);
    reveal(response_failed);
    reveal(closed);
}

proof fn lemma_prepare_wf(run: RunModel, agent: AgentModel, i: usize)
    requires
        run.wf(),
        run.point == Point::Started(i),
        run.calls.len() <= usize::MAX,
    ensures
        prepare(run, agent, i as int).run.wf(),
{
    reveal(prepare);
    let call = run.calls[i as int];
    lemma_refuse_wf(
        run,
        agent,
        i as int,
        ToolResultModel::failed(call.id, "Tool "@ + call.name + " not found"@),
        false,
    );
    lemma_marked(run, Point::Validating(i), i as int);
}

proof fn lemma_after_refusal_wf(run: RunModel, agent: AgentModel, i: usize)
    requires
        run.wf(),
        run.point == Point::Refused(i),
        run.calls.len() <= usize::MAX,
    ensures
        after_refusal(run, agent, i as int).run.wf(),
{
    reveal(after_refusal);
    if run.parallel {
        assert forall|j: int| 0 <= j < i + 1 implies #[trigger] run.covered(j) by {}
        lemma_announce_or_launch_wf(run, agent, i + 1);
    } else {
        lemma_append_slot_wf(run, agent, i as int);
    }
}

proof fn lemma_resume_wf(run: RunModel, agent: AgentModel, cancelled: bool)
    requires
        run.wf(),
        run.calls.len() <= usize::MAX,
    ensures
        resume(run, agent, cancelled).run.wf(),
{
    reveal(resume);
    match run.point {
        Point::Opening => lemma_opened_wf(run, agent, cancelled),
        Point::Injecting => lemma_inject_wf(run, agent, cancelled),
        Point::TurnStarted => lemma_inject_wf(run, agent, cancelled),
        Point::AssistantPublished => lemma_account_wf(run, agent, cancelled),
        Point::UsagePublished => lemma_after_response_wf(run, agent, cancelled),
        Point::TruncatedStarted(i) => lemma_truncated_wf(run, agent, cancelled),
        Point::TruncatedEnded(i) => lemma_truncated_wf(run, agent, cancelled),
        Point::TruncatedAppended(i) => lemma_truncated_wf(run, agent, cancelled),
        Point::Started(i) => lemma_prepare_wf(run, agent, i),
        Point::Refused(i) => lemma_after_refusal_wf(run, agent, i),
        Point::Updated => lemma_after_updates_wf(run, agent, cancelled),
        Point::PolledFlush(i) => {},
        Point::Flushing(i) => {},
        Point::ReviewedFlush(i) => {},
        Point::PolledEnded => lemma_next_sibling_wf(run, agent),
        Point::Completed(i) => lemma_after_completion_wf(run, agent, i as int, cancelled),
        Point::Ended(i) => {
            if run.parallel {
                lemma_after_tool_wf(run, agent);
            } else {
                lemma_append_slot_wf(run, agent, i as int);
            }
        },
        Point::Appended(i) => lemma_after_append_wf(run, agent, i as int),
        Point::TurnEnded => lemma_turn_ended_wf(run, agent, cancelled),
        Point::FailedTurn | Point::FailedEnd | Point::Closing | Point::FailureTurn
        | Point::FailureEnd | Point::CancelTurn | Point::CancelEnd | Point::Streaming => {
            lemma_closing_wf(run, agent, cancelled)
        },
        _ => lemma_raise_wf(run, agent, out_of_step(run), cancelled),
    }
}

/// Every step keeps the invariant of the run: no index leaves its batch, nothing that a point
/// needs is missing, and no call of a parallel batch is forgotten.
pub proof fn law_steps_keep_the_invariant(
    run: RunModel,
    agent: AgentModel,
    input: InputModel,
    cancelled: bool,
)
    requires
        run.wf(),
        run.calls.len() <= usize::MAX,
    ensures
        next(run, agent, input, cancelled).run.wf(),
{
    reveal(next);
    lemma_raise_wf(run, agent, out_of_step(run), cancelled);
    match input {
        InputModel::Drive => {
            lemma_start_wf(run, agent, cancelled);
            lemma_raise_wf(
                run,
                agent,
                refused("run"@, run.state.phase.spec_name(), "start_turn"@),
                cancelled,
            );
        },
        InputModel::Published => {
            lemma_publish_wf(run, agent);
            lemma_resume_wf(run, agent, cancelled);
        },
        InputModel::Failed(error) => {
            lemma_publish_wf(run, agent);
            lemma_resume_wf(run, agent, cancelled);
            lemma_raise_wf(run, agent, error, cancelled);
        },
        _ => {
            if run.outbox.len() == 0 {
                if run.point is Transforming || run.point is Converting || run.point is Connecting
                    || run.point is Streaming || run.point is Preparing || run.point is Asking {
                    lemma_model_reply_wf(run, agent, input, cancelled);
                } else if run.point is Validating || run.point is Deciding
                    || run.point is Launching || run.point is Running || run.point is Polling
                    || run.point is PolledFlush || run.point is PolledReview
                    || run.point is Flushing || run.point is Reviewing
                    || run.point is ReviewedFlush {
                    lemma_tool_reply_wf(run, agent, input, cancelled);
                }
            }
        },
    }
}

/// An outcome that answers the action of a point outside a tool batch.
proof fn lemma_model_reply_wf(run: RunModel, agent: AgentModel, input: InputModel, cancelled: bool)
    requires
        run.wf(),
        run.outbox.len() == 0,
        run.point is Transforming || run.point is Converting || run.point is Connecting
            || run.point is Streaming || run.point is Preparing || run.point is Asking,
        !(input is Drive),
        !(input is Published),
        !(input is Failed),
    ensures
        next(run, agent, input, cancelled).run.wf(),
{
    reveal(next);
    lemma_raise_wf(run, agent, out_of_step(run), cancelled);
    match (run.point, input) {
        (Point::Converting, InputModel::Converted(text)) => {
            lemma_connect_wf(run, agent, text, cancelled);
        },
        (Point::Streaming, InputModel::Stream(Some(event))) => {
            lemma_streamed_wf(run, agent, event, cancelled);
        },
        (Point::Streaming, InputModel::Stream(None)) => {
            lemma_stream_ended_wf(run, agent, cancelled);
        },
        (Point::Preparing, InputModel::NextTurn(next_turn)) => {
            reveal(prepared);
        },
        (Point::Asking, InputModel::Stop(stop)) => {
            lemma_answered_wf(run, agent, stop, cancelled);
        },
        _ => {},
    }
}

proof fn lemma_validated_wf(
    run: RunModel,
    agent: AgentModel,
    i: usize,
    verdict: Result<(), ToolErrorModel>,
    cancelled: bool,
)
    requires
        run.wf(),
        run.point == Point::Validating(i),
        run.calls.len() <= usize::MAX,
    ensures
        validated(run, agent, i as int, verdict, cancelled).run.wf(),
{
    reveal(validated);
    let call = run.calls[i as int];
    match verdict {
        Err(error) => lemma_refuse_wf(
            run,
            agent,
            i as int,
            ToolResultModel::failed(call.id, error.result_text()),
            false,
        ),
        Ok(()) => {
            lemma_marked(run, Point::Deciding(i), i as int);
            lemma_raise_wf(
                run,
                agent,
                refused("agent"@, "not-running"@, "current_context"@),
                cancelled,
            );
        },
    }
}

proof fn lemma_progressed_wf(
    run: RunModel,
    agent: AgentModel,
    updates: Seq<PendingUpdateModel>,
    cancelled: bool,
)
    requires
        run.wf(),
        run.point == Point::Running,
        run.calls.len() <= usize::MAX,
    ensures
        progressed(run, agent, updates, cancelled).run.wf(),
{
    reveal(progressed);
    let noted = RunModel { updated: update_calls(updates), ..run };
    lemma_wf_depends(run, noted);
    if updates.len() == 0 {
        lemma_after_updates_wf(noted, agent, cancelled);
    } else {
        lemma_emit_wf(noted, agent, update_events(updates), Point::Updated);
        lemma_marked(noted, Point::Updated, 0);
    }
}

proof fn lemma_sibling_flushed_wf(run: RunModel, agent: AgentModel, i: usize, cancelled: bool)
    requires
        run.wf(),
        run.point == Point::PolledFlush(i),
        run.calls.len() <= usize::MAX,
    ensures
        sibling_flushed(run, agent, i as int, cancelled).run.wf(),
{
    reveal(sibling_flushed);
    match run.execution {
        Some(execution) => lemma_review_wf(
            run,
            agent,
            i as int,
            execution,
            Point::PolledReview(i),
            cancelled,
        ),
        None => lemma_settle_tool_wf(
            run,
            agent,
            i as int,
            SlotModel {
                result: Some(
                    ToolResultModel::failed(run.calls[i as int].id, "Operation aborted"@),
                ),
                terminate: false,
            },
            Point::PolledEnded,
        ),
    }
}

/// The last flush beside a reviewed tool.
proof fn lemma_conclude_wf(run: RunModel, agent: AgentModel, i: usize, result: ToolResultModel)
    requires
        run.wf(),
        run.point == Point::ReviewedFlush(i),
    ensures
        conclude(run, agent, i as int, result, Point::Ended(i)).run.wf(),
{
    reveal(conclude);
    lemma_marked(run, Point::Ended(i), i as int);
    let marked = RunModel { point: Point::Ended(i), ..run };
    lemma_wf_depends(marked, conclude(run, agent, i as int, result, Point::Ended(i)).run);
}

/// An outcome that answers the action of a point inside a tool batch.
proof fn lemma_tool_reply_wf(run: RunModel, agent: AgentModel, input: InputModel, cancelled: bool)
    requires
        run.wf(),
        run.calls.len() <= usize::MAX,
        run.outbox.len() == 0,
        run.point is Validating || run.point is Deciding || run.point is Launching
            || run.point is Running || run.point is Polling || run.point is PolledFlush
            || run.point is PolledReview || run.point is Flushing || run.point is Reviewing
            || run.point is ReviewedFlush,
        !(input is Drive),
        !(input is Published),
        !(input is Failed),
    ensures
        next(run, agent, input, cancelled).run.wf(),
{
    reveal(next);
    lemma_raise_wf(run, agent, out_of_step(run), cancelled);
    match (run.point, input) {
        (Point::Validating(i), InputModel::Validated(verdict)) => {
            lemma_validated_wf(run, agent, i, verdict, cancelled);
        },
        (Point::Deciding(i), InputModel::Before(decision)) => {
            lemma_decided_wf(run, agent, i as int, decision, cancelled);
        },
        (Point::Launching, InputModel::Launched) => {
            lemma_marked(run, Point::Running, 0);
        },
        (Point::Running, InputModel::Updates(updates)) => {
            lemma_progressed_wf(run, agent, updates, cancelled);
        },
        (Point::Running, InputModel::Completed { index, execution, updates }) => {
            if run.running.contains(index) {
                lemma_completed_wf(run, agent, index, execution, updates, cancelled);
            }
        },
        (Point::Polling(i), InputModel::Polled(execution)) => {
            let marked = RunModel { execution, point: Point::PolledFlush(i), ..run };
            assert(forall|j: int| run.covered(j) == #[trigger] marked.covered(j));
        },
        (Point::PolledFlush(i), InputModel::Flushed(updates)) => {
            if updates.len() == 0 {
                lemma_sibling_flushed_wf(run, agent, i, cancelled);
            } else {
                lemma_emit_wf(run, agent, update_events(updates), Point::PolledFlush(i));
            }
        },
        (Point::PolledReview(i), InputModel::After(verdict)) => {
            let result = reviewed(run.calls[i as int], run.result->0, verdict);
            lemma_settle_tool_wf(
                run,
                agent,
                i as int,
                SlotModel { result: Some(result), terminate: asks_to_stop(result, verdict) },
                Point::PolledEnded,
            );
        },
        (Point::Flushing(i), InputModel::Flushed(updates)) => {
            if updates.len() == 0 {
                lemma_review_wf(
                    run,
                    agent,
                    i as int,
                    run.execution->0,
                    Point::Reviewing(i),
                    cancelled,
                );
            } else {
                lemma_emit_wf(run, agent, update_events(updates), Point::Flushing(i));
            }
        },
        (Point::Reviewing(i), InputModel::After(verdict)) => {
            lemma_after_review_wf(run, agent, i as int, verdict);
        },
        (Point::ReviewedFlush(i), InputModel::Flushed(updates)) => {
            if updates.len() == 0 {
                lemma_conclude_wf(run, agent, i, run.slots[i as int].result->0);
            } else {
                lemma_emit_wf(run, agent, update_events(updates), Point::ReviewedFlush(i));
            }
        },
        _ => {},
    }
}

} // verus!
