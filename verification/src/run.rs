//! One active run.
//!
//! A [`RunHandle`] owns the lifecycle of one run: the turn loop, the reduction of provider
//! streams, tool batches, and settlement. It performs no outside work. The host drives it:
//! [`RunHandle::step`] takes the outcome of the last [`RunAction`] and returns the next one,
//! so model, tool, hook and observer work stays with the host's executor.

use crate::agent::{Agent, AgentModel};
use crate::error::{
    tool_error_message, CoreError, CoreErrorModel, HookError, StateTransitionError, ToolError,
};
use crate::event::{AgentEvent, AgentEventKind, EventKindModel};
use crate::hooks::{apply_after_tool_call, AfterToolCall, BeforeToolCall, ContextEnvelope, NextTurn};
use crate::model::{duplicate_all, duplicate_from, duplicate_opt, Duplicate};
use crate::queue::QueuedMessage;
use crate::scheduler::{ModelRequest, ModelStreamEvent};
use crate::state::{
    phase_name, AgentPhase, AssistantToolCall, Message, MessageModel, ModelDescriptor,
    ModelTurnAccounting, RunId, RunPhase, RunSnapshot, RunState, RunStateModel, StopReason,
    ThinkingLevel, ToolCallId, TurnId,
};
use crate::stream::AssistantStream;
use crate::tool::{error_tool_result, ToolCall, ToolExecutionMode, ToolResult};
use crate::transition::{
    self, ActionModel, Execution, Next, PendingToolUpdate, Point, RunAction, RunModel, SlotModel,
    ToolSlot,
};
use vstd::prelude::*;

verus! {

broadcast use crate::model::group_views;

/// A handle to the one run currently owning an agent.
#[derive(Debug)]
pub struct RunHandle {
    state: RunState,
    initial_messages: Vec<Message>,
    message_start_index: usize,
    skip_initial_steering: bool,
    point: Point,
    outbox: Vec<AgentEventKind>,
    turn_id: TurnId,
    model_override: Option<ModelDescriptor>,
    thinking_override: Option<ThinkingLevel>,
    context: Option<ContextEnvelope>,
    queued: Vec<QueuedMessage>,
    request: Option<ModelRequest>,
    stream: AssistantStream,
    turn_model: Option<ModelDescriptor>,
    calls: Vec<AssistantToolCall>,
    reason: StopReason,
    parallel: bool,
    slots: Vec<ToolSlot>,
    running: Vec<usize>,
    siblings: Vec<usize>,
    updated: Vec<ToolCallId>,
    execution: Option<Execution>,
    result: Option<ToolResult>,
    terminate: bool,
    error: Option<CoreError>,
}

impl View for RunHandle {
    type V = RunModel;

    closed spec fn view(&self) -> RunModel {
        RunModel {
            state: self.state@,
            initial_messages: crate::model::views(self.initial_messages@),
            message_start_index: self.message_start_index as nat,
            skip_initial_steering: self.skip_initial_steering,
            point: self.point,
            outbox: crate::model::views(self.outbox@),
            turn_id: self.turn_id,
            model_override: crate::model::opt_view(self.model_override),
            thinking_override: self.thinking_override,
            context: crate::model::opt_view(self.context),
            queued: crate::model::views(self.queued@),
            request: crate::model::opt_view(self.request),
            stream: self.stream@,
            turn_model: crate::model::opt_view(self.turn_model),
            calls: crate::model::views(self.calls@),
            reason: self.reason,
            parallel: self.parallel,
            slots: crate::model::views(self.slots@),
            running: self.running@,
            siblings: self.siblings@,
            updated: crate::model::views(self.updated@),
            execution: transition::execution_opt(self.execution),
            result: crate::model::opt_view(self.result),
            terminate: self.terminate,
            error: crate::model::opt_view(self.error),
        }
    }
}

/// What a step leaves.
pub(crate) open spec fn leaves(run: RunModel, agent: AgentModel, action: ActionModel) -> Next {
    Next { run, agent, action }
}

/// What a step leaves.
pub(crate) open spec fn at(run: RunHandle, agent: Agent, action: RunAction) -> Next {
    leaves(run@, agent@, action@)
}

pub(crate) fn transition_error(entity: &'static str, from: &'static str, operation: &'static str) -> (r:
    CoreError)
    ensures
        r@ == transition::refused(entity@, from@, operation@),
{
    CoreError::InvalidTransition(StateTransitionError::new(entity, from, operation))
}

fn message_kinds(message: Message) -> (r: Vec<AgentEventKind>)
    ensures
        crate::model::views(r@) == transition::message_events(message@),
        r@.len() == 2,
{
    let mut kinds: Vec<AgentEventKind> = Vec::new();
    kinds.push(AgentEventKind::MessageStart { message: message.duplicate() });
    kinds.push(AgentEventKind::MessageEnd { message });
    assert(crate::model::views(kinds@) =~= transition::message_events(message@));
    kinds
}

fn one(kind: AgentEventKind) -> (r: Vec<AgentEventKind>)
    ensures
        crate::model::views(r@) == seq![kind@],
        r@.len() == 1,
{
    let mut kinds: Vec<AgentEventKind> = Vec::new();
    kinds.push(kind);
    assert(crate::model::views(kinds@) =~= seq![kind@]);
    kinds
}

fn update_kinds(updates: Vec<PendingToolUpdate>) -> (r: Vec<AgentEventKind>)
    ensures
        crate::model::views(r@) == transition::update_events(crate::model::views(updates@)),
        r@.len() == updates@.len(),
{
    let ghost all = transition::update_events(crate::model::views(updates@));
    let mut kinds: Vec<AgentEventKind> = Vec::new();
    let mut i: usize = 0;
    while i < updates.len()
        invariant
            i <= updates@.len(),
            all == transition::update_events(crate::model::views(updates@)),
            crate::model::views(kinds@) == all.take(i as int),
        decreases updates.len() - i,
    {
        kinds.push(
            AgentEventKind::ToolExecutionUpdate {
                tool_call_id: updates[i].tool_call_id.duplicate(),
                tool_name: updates[i].tool_name.clone(),
                update: updates[i].update.duplicate(),
            },
        );
        assert(all.take(i + 1) =~= all.take(i as int).push(
            transition::update_event(updates@[i as int]@),
        ));
        i = i + 1;
    }
    assert(all.take(i as int) =~= all);
    kinds
}

fn update_ids(updates: &Vec<PendingToolUpdate>) -> (r: Vec<ToolCallId>)
    ensures
        crate::model::views(r@) == transition::update_calls(crate::model::views(updates@)),
{
    let ghost all = transition::update_calls(crate::model::views(updates@));
    let mut ids: Vec<ToolCallId> = Vec::new();
    let mut i: usize = 0;
    while i < updates.len()
        invariant
            i <= updates@.len(),
            all == transition::update_calls(crate::model::views(updates@)),
            crate::model::views(ids@) == all.take(i as int),
        decreases updates.len() - i,
    {
        ids.push(updates[i].tool_call_id.duplicate());
        assert(all.take(i + 1) =~= all.take(i as int).push(updates@[i as int]@.tool_call_id));
        i = i + 1;
    }
    assert(all.take(i as int) =~= all);
    ids
}

/// Name of a stop reason, as diagnostics print it.
pub fn stop_reason_debug(reason: StopReason) -> (r: &'static str)
    ensures
        r@ == transition::reason_name(reason),
{
    match reason {
        StopReason::EndTurn => "EndTurn",
        StopReason::ToolUse => "ToolUse",
        StopReason::Length => "Length",
        StopReason::Aborted => "Aborted",
        StopReason::Cancelled => "Cancelled",
        StopReason::Error => "Error",
    }
}

/// The transcript as hooks see it.
fn current_context(agent: &Agent) -> (r: ContextEnvelope)
    ensures
        r@ == transition::context_of(agent@),
{
    ContextEnvelope {
        version: 1,
        messages: duplicate_all(&agent.state.messages),
        host_messages: duplicate_all(&agent.state.host_messages),
    }
}

/// Append the message that a failed or cancelled run leaves behind.
fn closing_message(agent: &mut Agent, reason: StopReason, text: String) -> (r: Message)
    ensures
        r@ == transition::closing_message(old(agent)@, reason, text@),
        final(agent)@ == (AgentModel {
            state: old(agent)@.state.allocated().appended(r@),
            ..old(agent)@
        }),
{
    let ghost before = agent@;
    let id = agent.state.allocate_message_id();
    let message = Message::Assistant {
        id,
        content: String::new(),
        tool_calls: Vec::new(),
        stop_reason: Some(reason),
        error_message: Some(text),
    };
    assert(message@ =~= transition::closing_message(before, reason, text@));
    agent.state.messages.push(message.duplicate());
    message
}

/// Clear what a cancelled run may leave open; tells whether the transcript already ends in an
/// aborted response.
fn clear_transient(agent: &mut Agent) -> (r: bool)
    ensures
        r == transition::ends_aborted(old(agent)@.state.messages),
        final(agent)@ == (AgentModel {
            state: crate::state::AgentStateModel {
                partial_response: None,
                is_streaming: false,
                pending_tool_calls: Set::empty(),
                ..old(agent)@.state
            },
            ..old(agent)@
        }),
{
    agent.state.partial_response = None;
    agent.state.is_streaming = false;
    agent.state.pending_tool_calls.clear();
    let n = agent.state.messages.len();
    if n == 0 {
        return false;
    }
    assert(agent@.state.messages.last() == agent.state.messages@[n - 1]@);
    match &agent.state.messages[n - 1] {
        Message::Assistant { stop_reason, .. } => match stop_reason {
            Some(StopReason::Aborted) => true,
            _ => false,
        },
        _ => false,
    }
}

/// Take the messages that the next turn starts with: steering, or at the idle boundary
/// follow-up.
fn next_queued(agent: &mut Agent, wants_response: bool) -> (r: Vec<QueuedMessage>)
    ensures
        crate::model::views(r@) == transition::next_queued(old(agent)@, wants_response),
        final(agent)@ == transition::after_queued(old(agent)@, wants_response),
{
    let queued = agent.queues.steering.drain(agent.steering);
    if !wants_response && queued.len() == 0 {
        agent.queues.follow_up.drain(agent.follow_up)
    } else {
        queued
    }
}

impl RunHandle {
    /// What holds of a run between two steps.
    pub open spec fn wf(self) -> bool {
        self@.wf()
    }

    /// Create a run that was not driven yet.
    pub fn created(
        id: RunId,
        initial_messages: Vec<Message>,
        message_start_index: usize,
        skip_initial_steering: bool,
    ) -> (r: Self)
        ensures
            r.wf(),
            r@ == RunModel::created(
                id,
                crate::model::views(initial_messages@),
                message_start_index as nat,
                skip_initial_steering,
            ),
    {
        let r = RunHandle {
            state: RunState::created(id),
            initial_messages,
            message_start_index,
            skip_initial_steering,
            point: Point::Created,
            outbox: Vec::new(),
            turn_id: TurnId(1),
            model_override: None,
            thinking_override: None,
            context: None,
            queued: Vec::new(),
            request: None,
            stream: AssistantStream::new(),
            turn_model: None,
            calls: Vec::new(),
            reason: StopReason::EndTurn,
            parallel: false,
            slots: Vec::new(),
            running: Vec::new(),
            siblings: Vec::new(),
            updated: Vec::new(),
            execution: None,
            result: None,
            terminate: false,
            error: None,
        };
        assert(r@ =~= RunModel::created(
            id,
            crate::model::views(initial_messages@),
            message_start_index as nat,
            skip_initial_steering,
        ));
        r
    }

    /// Create a run that owns its agent without a turn.
    pub(crate) fn reserved(id: RunId) -> (r: Self)
        ensures
            r.wf(),
            ({
                let run = RunModel::created(id, Seq::empty(), 0, true);
                r@ == RunModel {
                    state: RunStateModel { phase: RunPhase::Running, ..run.state },
                    ..run
                }
            }),
    {
        let none: Vec<Message> = Vec::new();
        assert(crate::model::views(none@) =~= Seq::<MessageModel>::empty());
        let mut r = RunHandle::created(id, none, 0, true);
        let ghost run = r@;
        r.state.phase = RunPhase::Running;
        assert(r@ =~= RunModel {
            state: RunStateModel { phase: RunPhase::Running, ..run.state },
            ..run
        });
        proof {
            transition::lemma_wf_depends(run, r@);
        }
        r
    }

    /// Stable identifier for this run.
    pub fn id(&self) -> (r: RunId)
        ensures
            r == self@.state.id,
    {
        self.state.id
    }

    /// Return an owned snapshot that cannot mutate the run.
    pub fn snapshot(&self) -> (r: RunSnapshot)
        ensures
            r.shows(self@.state),
    {
        self.state.snapshot()
    }

    /// Return events emitted by this run in their immutable source order.
    pub fn events(&self) -> (r: Vec<AgentEvent>)
        ensures
            crate::model::views(r@) == self@.state.events,
    {
        duplicate_all(&self.state.events)
    }

    /// Cancel a run that was never driven; leave any other to its next boundary. Tells whether
    /// the run was cancelled here.
    pub fn stop(&mut self) -> (r: bool)
        requires
            old(self).wf(),
        ensures
            final(self).wf(),
            r == (old(self)@.state.phase == RunPhase::Created),
            final(self)@ == old(self)@.stopped(),
    {
        if self.state.phase == RunPhase::Created {
            self.state.phase = RunPhase::Cancelled;
            self.state.stop_reason = Some(StopReason::Cancelled);
            proof {
                transition::lemma_wf_depends(old(self)@, self@);
            }
            true
        } else {
            false
        }
    }

    pub(crate) fn publish(&mut self) -> (r: RunAction)
        requires
            old(self)@.outbox.len() > 0,
        ensures
            forall|a: AgentModel|
                leaves(final(self)@, a, r@) == #[trigger] transition::publish(
                    old(self)@,
                    a,
                ),
    {
        let ghost before = self@;
        let kind = self.outbox.remove(0);
        let event = self.state.record_event(kind);
        assert(self@.outbox =~= before.outbox.skip(1));
        assert(kind@ == before.outbox[0]);
        RunAction::Publish(event)
    }

    pub(crate) fn emit(&mut self, kinds: Vec<AgentEventKind>, point: Point) -> (r: RunAction)
        requires
            kinds@.len() > 0,
        ensures
            forall|a: AgentModel|
                leaves(final(self)@, a, r@) == #[trigger] transition::emit(
                    old(self)@,
                    a,
                    crate::model::views(kinds@),
                    point,
                ),
    {
        let ghost before = self@;
        self.outbox = kinds;
        self.point = point;
        assert(self@ =~= RunModel { outbox: crate::model::views(kinds@), point, ..before });
        let ghost middle = self@;
        let action = self.publish();
        assert forall|a: AgentModel|
            leaves(self@, a, action@) == #[trigger] transition::emit(
                before,
                a,
                crate::model::views(kinds@),
                point,
            ) by {
            assert(transition::publish(middle, a) == transition::emit(
                before,
                a,
                crate::model::views(kinds@),
                point,
            ));
        }
        action
    }

    pub(crate) fn ask(&mut self, point: Point, action: RunAction) -> (r: RunAction)
        ensures
            r == action,
            forall|a: AgentModel|
                leaves(final(self)@, a, r@) == #[trigger] transition::ask(
                    old(self)@,
                    a,
                    point,
                    action@,
                ),
    {
        let ghost before = self@;
        self.point = point;
        assert(self@ =~= RunModel { point, ..before });
        action
    }

    pub(crate) fn done(&mut self, outcome: Result<(), CoreError>) -> (r: RunAction)
        ensures
            r == RunAction::Done(outcome),
            final(self)@ == (RunModel {
                point: Point::Finished,
                outbox: Seq::empty(),
                ..old(self)@
            }),
    {
        let ghost before = self@;
        self.point = Point::Finished;
        self.outbox = Vec::new();
        assert(self@ =~= RunModel { point: Point::Finished, outbox: Seq::empty(), ..before });
        RunAction::Done(outcome)
    }

    pub(crate) fn new_messages(&self, agent: &Agent) -> (r: Vec<Message>)
        ensures
            crate::model::views(r@) == transition::new_messages(self@, agent@),
    {
        if self.message_start_index <= agent.state.messages.len() {
            duplicate_from(&agent.state.messages, self.message_start_index)
        } else {
            Vec::new()
        }
    }

    /// Give a run without outcome one, and make its agent idle.
    pub(crate) fn finish(
        &mut self,
        agent: &mut Agent,
        phase: RunPhase,
        reason: StopReason,
        error: Option<String>,
    ) -> (r: Result<(), CoreError>)
        ensures
            (final(self)@, final(agent)@) == transition::finish(
                old(self)@,
                old(agent)@,
                phase,
                reason,
                crate::model::opt_view(error),
            ),
            r is Ok <==> !old(self)@.state.phase.terminal(),
            r matches Err(e) ==> e@ == (CoreErrorModel::RunFinished {
                run_id: old(self)@.state.id,
            }),
    {
        let ghost before = self@;
        let ghost agent_before = agent@;
        if self.state.phase.is_terminal() {
            return Err(CoreError::RunFinished { run_id: self.state.id });
        }
        self.state.phase = phase;
        self.state.stop_reason = Some(reason);
        self.state.error = duplicate_opt(&error);
        agent.state.partial_response = None;
        agent.state.is_streaming = false;
        agent.state.pending_tool_calls.clear();
        agent.state.last_error = error;
        agent.state.phase = AgentPhase::Idle;
        agent.active_run = None;
        proof {
            let text = crate::model::opt_view(error);
            assert(self@ =~= RunModel {
                state: before.state.finished(phase, reason, text),
                ..before
            });
            assert(agent@ =~= AgentModel {
                state: agent_before.state.settled(text),
                active_run: None,
                ..agent_before
            });
        }
        Ok(())
    }

    pub(crate) fn current_turn(&self) -> (r: TurnId)
        ensures
            r == transition::current_turn(self@),
    {
        match self.state.turn_id {
            Some(turn_id) => turn_id,
            None => TurnId(1),
        }
    }

    pub(crate) fn settle_failure(&mut self, agent: &mut Agent, error: CoreError) -> (r: RunAction)
        ensures
            at(*final(self), *final(agent), r) == transition::settle_failure(
                old(self)@,
                old(agent)@,
                error@,
            ),
    {
        proof {
            reveal(transition::settle_failure);
        }
        let ghost before = self@;
        let message = closing_message(agent, StopReason::Error, error.text());
        agent.state.partial_response = None;
        agent.state.pending_tool_calls.clear();
        let mut kinds = message_kinds(message);
        kinds.push(
            AgentEventKind::TurnEnd { turn_id: self.current_turn(), reason: StopReason::Error },
        );
        self.error = Some(error);
        assert(self@ =~= RunModel { error: Some(error@), ..before });
        self.emit(kinds, Point::FailureTurn)
    }

    pub(crate) fn settle_cancellation(&mut self, agent: &mut Agent, error: CoreError) -> (r: RunAction)
        ensures
            at(*final(self), *final(agent), r) == transition::settle_cancellation(
                old(self)@,
                old(agent)@,
                error@,
            ),
    {
        proof {
            reveal(transition::settle_cancellation);
        }
        let ghost before = self@;
        let turn_end = AgentEventKind::TurnEnd {
            turn_id: self.current_turn(),
            reason: StopReason::Cancelled,
        };
        let aborted = clear_transient(agent);
        self.error = Some(error);
        assert(self@ =~= RunModel { error: Some(error@), ..before });
        if aborted {
            self.emit(one(turn_end), Point::CancelTurn)
        } else {
            let message = closing_message(
                agent,
                StopReason::Aborted,
                "Operation aborted".to_owned(),
            );
            let mut kinds = message_kinds(message);
            kinds.push(turn_end);
            self.emit(kinds, Point::CancelTurn)
        }
    }

    pub(crate) fn raise(&mut self, agent: &mut Agent, error: CoreError, cancelled: bool) -> (r: RunAction)
        ensures
            at(*final(self), *final(agent), r) == transition::raise(
                old(self)@,
                old(agent)@,
                error@,
                cancelled,
            ),
    {
        proof {
            reveal(transition::raise);
        }
        if self.state.phase.is_terminal() {
            self.done(Err(error))
        } else if cancelled {
            self.settle_cancellation(agent, error)
        } else {
            self.settle_failure(agent, error)
        }
    }

    /// Begin the first model turn.
    pub fn start_turn(&mut self, turn_id: TurnId) -> (r: Result<(), CoreError>)
        requires
            old(self).wf(),
        ensures
            final(self).wf(),
            r is Ok <==> old(self)@.state.phase == RunPhase::Created,
            r is Ok ==> final(self)@ == (RunModel {
                state: RunStateModel {
                    phase: RunPhase::Running,
                    turn_id: Some(turn_id),
                    ..old(self)@.state
                },
                ..old(self)@
            }),
            r matches Err(e) ==> final(self)@ == old(self)@ && e@ == transition::refused(
                "run"@,
                old(self)@.state.phase.spec_name(),
                "start_turn"@,
            ),
    {
        let ghost before = self@;
        if self.state.phase != RunPhase::Created {
            return Err(transition_error("run", phase_name(self.state.phase), "start_turn"));
        }
        self.state.phase = RunPhase::Running;
        self.state.turn_id = Some(turn_id);
        assert(self@ =~= RunModel {
            state: RunStateModel {
                phase: RunPhase::Running,
                turn_id: Some(turn_id),
                ..before.state
            },
            ..before
        });
        proof {
            transition::lemma_wf_depends(before, self@);
        }
        Ok(())
    }

    /// Enter observer settlement before selecting a terminal outcome.
    pub fn begin_settlement(&mut self) -> (r: Result<(), CoreError>)
        requires
            old(self).wf(),
        ensures
            final(self).wf(),
            r is Ok <==> !old(self)@.state.phase.terminal(),
            r is Ok ==> final(self)@ == (RunModel {
                state: RunStateModel { phase: RunPhase::Settling, ..old(self)@.state },
                ..old(self)@
            }),
            r matches Err(e) ==> final(self)@ == old(self)@ && e@ == (
            CoreErrorModel::RunFinished { run_id: old(self)@.state.id }),
    {
        if self.state.phase.is_terminal() {
            return Err(CoreError::RunFinished { run_id: self.state.id });
        }
        self.state.phase = RunPhase::Settling;
        proof {
            transition::lemma_wf_depends(old(self)@, self@);
        }
        Ok(())
    }

    /// Settle a successful run and clear transient agent state first.
    pub fn succeed(&mut self, agent: &mut Agent, reason: StopReason) -> (r: Result<(), CoreError>)
        requires
            old(self).wf(),
        ensures
            final(self).wf(),
            (final(self)@, final(agent)@) == transition::finish(
                old(self)@,
                old(agent)@,
                RunPhase::Succeeded,
                reason,
                None,
            ),
            r is Ok <==> !old(self)@.state.phase.terminal(),
            r matches Err(e) ==> e@ == (CoreErrorModel::RunFinished {
                run_id: old(self)@.state.id,
            }),
    {
        let outcome = self.finish(agent, RunPhase::Succeeded, reason, None);
        proof {
            transition::lemma_wf_depends(old(self)@, self@);
        }
        outcome
    }

    /// Settle a failed run and clear transient agent state first.
    pub fn fail(&mut self, agent: &mut Agent, message: String) -> (r: Result<(), CoreError>)
        requires
            old(self).wf(),
        ensures
            final(self).wf(),
            (final(self)@, final(agent)@) == transition::finish(
                old(self)@,
                old(agent)@,
                RunPhase::Failed,
                StopReason::Error,
                Some(message@),
            ),
            r is Ok <==> !old(self)@.state.phase.terminal(),
            r matches Err(e) ==> e@ == (CoreErrorModel::RunFinished {
                run_id: old(self)@.state.id,
            }),
    {
        let outcome = self.finish(agent, RunPhase::Failed, StopReason::Error, Some(message));
        proof {
            transition::lemma_wf_depends(old(self)@, self@);
        }
        outcome
    }

    /// Settle a run as cancelled.
    pub fn settle_cancelled(&mut self, agent: &mut Agent) -> (r: Result<(), CoreError>)
        requires
            old(self).wf(),
        ensures
            final(self).wf(),
            (final(self)@, final(agent)@) == transition::finish(
                old(self)@,
                old(agent)@,
                RunPhase::Cancelled,
                StopReason::Cancelled,
                None,
            ),
            r is Ok <==> !old(self)@.state.phase.terminal(),
            r matches Err(e) ==> e@ == (CoreErrorModel::RunFinished {
                run_id: old(self)@.state.id,
            }),
    {
        let outcome = self.finish(agent, RunPhase::Cancelled, StopReason::Cancelled, None);
        proof {
            transition::lemma_wf_depends(old(self)@, self@);
        }
        outcome
    }

    /// Construct an event envelope using the run's next local sequence.
    pub fn event(&mut self, kind: AgentEventKind) -> (r: AgentEvent)
        requires
            old(self).wf(),
        ensures
            final(self).wf(),
            r@ == old(self)@.state.next_event(kind@),
            final(self)@ == (RunModel {
                state: old(self)@.state.recorded(kind@),
                ..old(self)@
            }),
    {
        let ghost before = self@;
        let event = self.state.record_event(kind);
        assert(self@ =~= RunModel { state: before.state.recorded(kind@), ..before });
        proof {
            transition::lemma_wf_depends(before, self@);
        }
        event
    }

    /// The call of the current batch with this index.
    pub fn tool_call(&self, index: usize) -> (r: Option<ToolCall>)
        ensures
            index < self@.calls.len() ==> (r matches Some(call) && call@ == self@.calls[index as int]),
            index >= self@.calls.len() ==> r is None,
    {
        if index < self.calls.len() {
            assert(self@.calls[index as int] == self.calls@[index as int]@);
            Some(ToolCall::requested(&self.calls[index]))
        } else {
            None
        }
    }

    /// Request cancellation. This operation is idempotent after settlement.
    ///
    /// A driven run is settled by its next step, so its terminal events remain ordered. A run
    /// that was never driven settles immediately.
    pub fn abort(&mut self, agent: &mut Agent) -> (r: Result<(), CoreError>)
        requires
            old(self).wf(),
        ensures
            final(self).wf(),
            r is Ok,
            final(self)@ == old(self)@.stopped(),
            final(agent)@ == transition::aborted(old(self)@, old(agent)@),
    {
        if self.state.phase.is_terminal() {
            return Ok(());
        }
        let ghost agent_before = agent@;
        if self.stop() {
            agent.state.partial_response = None;
            agent.state.is_streaming = false;
            agent.state.pending_tool_calls.clear();
            agent.state.last_error = None;
            agent.state.phase = AgentPhase::Idle;
            agent.active_run = None;
            assert(agent@.state =~= agent_before.state.settled(None));
        } else {
            agent.state.phase = AgentPhase::Cancelling(self.state.id);
        }
        Ok(())
    }

    pub(crate) fn start(&mut self, agent: &mut Agent, cancelled: bool) -> (r: RunAction)
        ensures
            at(*final(self), *final(agent), r) == transition::start(
                old(self)@,
                old(agent)@,
                cancelled,
            ),
    {
        proof {
            reveal(transition::start);
        }
        let ghost before = self@;
        if self.state.phase != RunPhase::Created {
            let error = transition_error("run", phase_name(self.state.phase), "start_turn");
            return self.raise(agent, error, cancelled);
        }
        self.state.phase = RunPhase::Running;
        self.state.turn_id = Some(TurnId(1));
        self.turn_id = TurnId(1);
        assert(self@ =~= RunModel {
            state: RunStateModel {
                phase: RunPhase::Running,
                turn_id: Some(TurnId(1)),
                ..before.state
            },
            turn_id: TurnId(1),
            ..before
        });
        let owned = match agent.owner_run() {
            Some(id) => id == self.state.id,
            None => false,
        };
        if !owned {
            let error = transition_error("agent", "not-running", "drive");
            return self.raise(agent, error, cancelled);
        }
        let mut kinds: Vec<AgentEventKind> = Vec::new();
        kinds.push(AgentEventKind::AgentStart);
        kinds.push(AgentEventKind::TurnStart { turn_id: TurnId(1) });
        let ghost head = seq![
            EventKindModel::AgentStart,
            EventKindModel::TurnStart { turn_id: TurnId(1) },
        ];
        let ghost all = crate::model::views(self.initial_messages@);
        proof {
            assert(all.take(0) =~= Seq::<MessageModel>::empty());
            assert(crate::model::views(kinds@) =~= head + transition::all_message_events(
                all.take(0),
            ));
        }
        let mut i: usize = 0;
        while i < self.initial_messages.len()
            invariant
                i <= self.initial_messages@.len(),
                all == crate::model::views(self.initial_messages@),
                kinds@.len() >= 2,
                crate::model::views(kinds@) == head + transition::all_message_events(
                    all.take(i as int),
                ),
            decreases self.initial_messages.len() - i,
        {
            let ghost kinds_before = crate::model::views(kinds@);
            let mut pair = message_kinds(self.initial_messages[i].duplicate());
            kinds.append(&mut pair);
            proof {
                assert(all.take(i + 1).drop_last() =~= all.take(i as int));
                assert(all.take(i + 1).last() == self.initial_messages@[i as int]@);
                assert(crate::model::views(kinds@) =~= kinds_before + transition::message_events(
                    self.initial_messages@[i as int]@,
                ));
                assert(crate::model::views(kinds@) =~= head + transition::all_message_events(
                    all.take(i + 1),
                ));
            }
            i = i + 1;
        }
        assert(all.take(i as int) =~= all);
        self.emit(kinds, Point::Opening)
    }

    pub(crate) fn request_model(&mut self, agent: &mut Agent, cancelled: bool) -> (r: RunAction)
        ensures
            at(*final(self), *final(agent), r) == transition::request_model(
                old(self)@,
                old(agent)@,
                cancelled,
            ),
    {
        proof {
            reveal(transition::request_model);
        }
        let ghost before = self@;
        let owned = match agent.owner_run() {
            Some(id) => id == self.state.id,
            None => false,
        };
        if !owned {
            let error = transition_error("agent", "not-running", "model_request");
            return self.raise(agent, error, cancelled);
        }
        if cancelled && self.turn_id.0 == 1 {
            return self.raise(agent, CoreError::Cancelled, cancelled);
        }
        agent.state.is_streaming = true;
        let mut slot: Option<ContextEnvelope> = None;
        std::mem::swap(&mut slot, &mut self.context);
        let context = match slot {
            Some(context) => context,
            None => current_context(agent),
        };
        let model = match &self.model_override {
            Some(model) => Some(model.duplicate()),
            None => duplicate_opt(&agent.state.model),
        };
        let thinking_level = match self.thinking_override {
            Some(level) => level,
            None => agent.state.thinking_level,
        };
        let request = ModelRequest {
            system_prompt: agent.state.system_prompt.clone(),
            context: String::new(),
            tools: agent.tools.definitions(),
            model,
            thinking_level,
        };
        self.request = Some(request);
        assert(self@ =~= RunModel { context: None, request: Some(request@), ..before });
        self.ask(Point::Transforming, RunAction::TransformContext(context))
    }

    pub(crate) fn inject(&mut self, agent: &mut Agent, cancelled: bool) -> (r: RunAction)
        ensures
            at(*final(self), *final(agent), r) == transition::inject(
                old(self)@,
                old(agent)@,
                cancelled,
            ),
    {
        proof {
            reveal(transition::inject);
        }
        if self.queued.len() == 0 {
            return self.request_model(agent, cancelled);
        }
        let ghost before = self@;
        let queued = self.queued.remove(0);
        let id = agent.state.allocate_message_id();
        let message = Message::User { id, content: queued.content };
        agent.state.messages.push(message.duplicate());
        let mut slot: Option<ContextEnvelope> = None;
        std::mem::swap(&mut slot, &mut self.context);
        self.context = match slot {
            Some(context) => {
                let mut extended = context;
                extended.messages.push(message.duplicate());
                Some(extended)
            },
            None => None,
        };
        proof {
            assert(queued@ == before.queued[0]);
            assert(self@.queued =~= before.queued.skip(1));
            assert(self@ =~= RunModel {
                queued: before.queued.skip(1),
                context: match before.context {
                    Some(context) => Some(
                        crate::hooks::ContextModel {
                            messages: context.messages.push(message@),
                            ..context
                        },
                    ),
                    None => None,
                },
                ..before
            });
        }
        self.emit(message_kinds(message), Point::Injecting)
    }

    pub(crate) fn opened(&mut self, agent: &mut Agent, cancelled: bool) -> (r: RunAction)
        ensures
            at(*final(self), *final(agent), r) == transition::opened(
                old(self)@,
                old(agent)@,
                cancelled,
            ),
    {
        proof {
            reveal(transition::opened);
        }
        let ghost before = self@;
        if self.skip_initial_steering {
            self.context = None;
            assert(self@ =~= RunModel { context: None, ..before });
            return self.request_model(agent, cancelled);
        }
        if agent.owner_run().is_none() {
            let error = transition_error("agent", "not-running", "current_context");
            return self.raise(agent, error, cancelled);
        }
        self.context = Some(current_context(agent));
        self.queued = agent.queues.steering.drain(agent.steering);
        self.inject(agent, cancelled)
    }

    pub(crate) fn connect(&mut self, agent: &mut Agent, text: String, cancelled: bool) -> (r: RunAction)
        requires
            old(self)@.request is Some,
        ensures
            at(*final(self), *final(agent), r) == transition::connect(
                old(self)@,
                old(agent)@,
                text@,
                cancelled,
            ),
    {
        proof {
            reveal(transition::connect);
        }
        let ghost before = self@;
        let mut slot: Option<ModelRequest> = None;
        std::mem::swap(&mut slot, &mut self.request);
        let mut request = slot.unwrap();
        request.context = text;
        self.turn_model = duplicate_opt(&request.model);
        assert(self@ =~= RunModel { request: None, turn_model: request@.model, ..before });
        if !agent.provider {
            return self.raise(agent, CoreError::MissingModelProvider, cancelled);
        }
        self.ask(Point::Connecting, RunAction::OpenStream(request))
    }

    pub(crate) fn streamed(&mut self, agent: &mut Agent, event: ModelStreamEvent, cancelled: bool) -> (r:
        RunAction)
        ensures
            at(*final(self), *final(agent), r) == transition::streamed(
                old(self)@,
                old(agent)@,
                event@,
                cancelled,
            ),
    {
        proof {
            reveal(transition::streamed);
        }
        let ghost before = self@;
        let ghost agent_before = agent@;
        match self.stream.accept(&mut agent.state, event) {
            Err(error) => {
                assert(self@ =~= before);
                assert(agent@ =~= agent_before);
                self.raise(agent, error, cancelled)
            },
            Ok(kinds) => {
                assert(self@ =~= RunModel {
                    stream: before.stream.after(agent_before.state, event@),
                    ..before
                });
                if kinds.len() == 0 {
                    self.ask(Point::Streaming, RunAction::NextStreamEvent)
                } else {
                    self.emit(kinds, Point::Streaming)
                }
            },
        }
    }

    pub(crate) fn stream_ended(&mut self, agent: &mut Agent, cancelled: bool) -> (r: RunAction)
        ensures
            at(*final(self), *final(agent), r) == transition::stream_ended(
                old(self)@,
                old(agent)@,
                cancelled,
            ),
    {
        proof {
            reveal(transition::stream_ended);
        }
        let ghost before = self@;
        let ghost agent_before = agent@;
        match self.stream.finish(&mut agent.state) {
            Err(error) => {
                assert(agent@ =~= agent_before);
                self.raise(agent, error, cancelled)
            },
            Ok(kinds) => {
                self.calls = duplicate_all(&self.stream.tool_calls);
                self.reason = self.stream.reason.unwrap();
                assert(self@ =~= RunModel {
                    calls: before.stream.tool_calls,
                    reason: before.stream.reason->0,
                    ..before
                });
                self.emit(kinds, Point::AssistantPublished)
            },
        }
    }

    pub(crate) fn account(&mut self, agent: &mut Agent, cancelled: bool) -> (r: RunAction)
        requires
            old(self)@.wf(),
        ensures
            at(*final(self), *final(agent), r) == transition::account(
                old(self)@,
                old(agent)@,
                cancelled,
            ),
    {
        proof {
            reveal(transition::account);
        }
        match &self.stream.usage {
            None => self.after_response(agent, cancelled),
            Some(usage) => {
                let accounting = ModelTurnAccounting {
                    run_id: self.state.id,
                    turn_id: self.turn_id,
                    model: duplicate_opt(&self.turn_model),
                    usage: usage.duplicate(),
                };
                agent.state.accounting.record(accounting.duplicate());
                self.emit(
                    one(AgentEventKind::ModelTurnUsage { accounting }),
                    Point::UsagePublished,
                )
            },
        }
    }

    pub(crate) fn wants_sequence(&self, agent: &Agent) -> (r: bool)
        ensures
            r == transition::wants_sequence(self@, agent@),
    {
        let mut i: usize = 0;
        while i < self.calls.len()
            invariant
                i <= self.calls@.len(),
                forall|j: int|
                    0 <= j < i ==> !transition::is_sequential(
                        agent@,
                        (#[trigger] self@.calls[j]).name,
                    ),
            decreases self.calls.len() - i,
        {
            assert(self@.calls[i as int] == self.calls@[i as int]@);
            if let Some(tool) = agent.tools.get(self.calls[i].name.as_str()) {
                if tool.execution_mode == ToolExecutionMode::Sequential {
                    assert(transition::is_sequential(agent@, self@.calls[i as int].name));
                    return true;
                }
            }
            i = i + 1;
        }
        false
    }

    pub(crate) fn after_response(&mut self, agent: &mut Agent, cancelled: bool) -> (r: RunAction)
        ensures
            at(*final(self), *final(agent), r) == transition::after_response(
                old(self)@,
                old(agent)@,
                cancelled,
            ),
    {
        proof {
            reveal(transition::after_response);
        }
        let ghost before = self@;
        let reason = self.reason;
        if reason == StopReason::Error || reason == StopReason::Aborted {
            let kind = AgentEventKind::TurnEnd { turn_id: self.turn_id, reason };
            return self.emit(one(kind), Point::FailedTurn);
        }
        if self.calls.len() == 0 {
            self.terminate = false;
            assert(self@ =~= RunModel { terminate: false, ..before });
            return self.end_turn();
        }
        if reason == StopReason::Length {
            return self.announce(agent, 0, Point::TruncatedStarted(0));
        }
        if reason != StopReason::ToolUse {
            let mut message = "assistant emitted tool calls with terminal reason ".to_owned();
            message.push_str(stop_reason_debug(reason));
            message.push_str(", expected ToolUse");
            return self.raise(agent, CoreError::UnsupportedModelStream { message }, cancelled);
        }
        self.parallel = !self.wants_sequence(agent);
        let mut slots: Vec<ToolSlot> = Vec::new();
        let mut i: usize = 0;
        let n = self.calls.len();
        while i < n
            invariant
                i <= n,
                slots@.len() == i,
                forall|j: int|
                    0 <= j < i ==> (#[trigger] slots@[j])@ == (SlotModel {
                        result: None,
                        terminate: false,
                    }),
            decreases n - i,
        {
            slots.push(ToolSlot { result: None, terminate: false });
            i = i + 1;
        }
        self.slots = slots;
        self.running = Vec::new();
        self.siblings = Vec::new();
        self.terminate = true;
        proof {
            let fresh = Seq::new(
                before.calls.len(),
                |i: int| SlotModel { result: None, terminate: false },
            );
            assert(self@.slots =~= fresh);
            assert(self@ =~= RunModel {
                parallel: !transition::wants_sequence(before, agent@),
                slots: fresh,
                running: Seq::empty(),
                siblings: Seq::empty(),
                terminate: true,
                ..before
            });
        }
        self.announce(agent, 0, Point::Started(0))
    }

    pub(crate) fn end_turn(&mut self) -> (r: RunAction)
        ensures
            forall|a: AgentModel|
                leaves(final(self)@, a, r@) == #[trigger] transition::end_turn(
                    old(self)@,
                    a,
                ),
    {
        proof {
            reveal(transition::end_turn);
        }
        let kind = AgentEventKind::TurnEnd { turn_id: self.turn_id, reason: self.reason };
        let ghost before = self@;
        let kinds = one(kind);
        let action = self.emit(kinds, Point::TurnEnded);
        assert forall|a: AgentModel|
            leaves(self@, a, action@) == #[trigger] transition::end_turn(
                before,
                a,
            ) by {
            assert(transition::emit(
                before,
                a,
                crate::model::views(kinds@),
                Point::TurnEnded,
            ) == transition::end_turn(before, a));
        }
        action
    }

    pub(crate) fn announce(&mut self, agent: &mut Agent, i: usize, point: Point) -> (r: RunAction)
        requires
            i < old(self)@.calls.len(),
        ensures
            at(*final(self), *final(agent), r) == transition::announce(
                old(self)@,
                old(agent)@,
                i as int,
                point,
            ),
    {
        proof {
            reveal(transition::announce);
        }
        let call = &self.calls[i];
        assert(self@.calls[i as int] == self.calls@[i as int]@);
        agent.state.pending_tool_calls.insert(call.id.duplicate());
        let kind = AgentEventKind::ToolExecutionStart {
            tool_call_id: call.id.duplicate(),
            tool_name: call.name.clone(),
            arguments: call.arguments.duplicate(),
        };
        self.emit(one(kind), point)
    }

    pub(crate) fn conclude(
        &mut self,
        agent: &mut Agent,
        i: usize,
        result: ToolResult,
        point: Point,
    ) -> (r: RunAction)
        requires
            i < old(self)@.calls.len(),
        ensures
            at(*final(self), *final(agent), r) == transition::conclude(
                old(self)@,
                old(agent)@,
                i as int,
                result@,
                point,
            ),
    {
        proof {
            reveal(transition::conclude);
        }
        let call = &self.calls[i];
        assert(self@.calls[i as int] == self.calls@[i as int]@);
        agent.state.pending_tool_calls.remove(&call.id);
        let kind = AgentEventKind::ToolExecutionEnd {
            tool_call_id: call.id.duplicate(),
            tool_name: call.name.clone(),
            result,
        };
        self.emit(one(kind), point)
    }

    pub(crate) fn append(
        &mut self,
        agent: &mut Agent,
        i: usize,
        result: ToolResult,
        point: Point,
    ) -> (r: RunAction)
        requires
            i < old(self)@.calls.len(),
        ensures
            at(*final(self), *final(agent), r) == transition::append(
                old(self)@,
                old(agent)@,
                i as int,
                result@,
                point,
            ),
    {
        proof {
            reveal(transition::append);
        }
        let call = &self.calls[i];
        assert(self@.calls[i as int] == self.calls@[i as int]@);
        let id = agent.state.allocate_message_id();
        let message = Message::ToolResult {
            id,
            tool_call_id: call.id.duplicate(),
            tool_name: call.name.clone(),
            content: result.content,
            details: result.details,
            usage: result.usage,
            added_tool_names: result.added_tool_names,
            is_error: result.is_error,
        };
        agent.state.messages.push(message.duplicate());
        self.emit(message_kinds(message), point)
    }

    pub(crate) fn call(&self, i: usize) -> (r: ToolCall)
        requires
            i < self@.calls.len(),
        ensures
            r@ == self@.calls[i as int],
    {
        assert(self@.calls[i as int] == self.calls@[i as int]@);
        ToolCall::requested(&self.calls[i])
    }

    pub(crate) fn truncated_result(&self, i: usize) -> (r: ToolResult)
        requires
            i < self@.calls.len(),
        ensures
            r@ == transition::truncated_result(self@.calls[i as int]),
    {
        let call = self.call(i);
        let mut text = "Tool call \"".to_owned();
        text.push_str(call.name.as_str());
        text.push_str(
            "\" was not executed: the response hit the output token limit, so its arguments may be truncated. Re-issue the tool call with complete arguments.",
        );
        error_tool_result(&call, text)
    }

    pub(crate) fn refuse(
        &mut self,
        agent: &mut Agent,
        i: usize,
        result: ToolResult,
        terminate: bool,
    ) -> (r: RunAction)
        requires
            i < old(self)@.calls.len(),
            old(self)@.slots.len() == old(self)@.calls.len(),
        ensures
            at(*final(self), *final(agent), r) == transition::refuse(
                old(self)@,
                old(agent)@,
                i as int,
                result@,
                terminate,
            ),
    {
        proof {
            reveal(transition::refuse);
        }
        let ghost before = self@;
        self.slots[i] = ToolSlot { result: Some(result.duplicate()), terminate };
        proof {
            let slot = SlotModel { result: Some(result@), terminate };
            assert(self@.slots =~= before.slots.update(i as int, slot));
            assert(self@ =~= RunModel { slots: before.slots.update(i as int, slot), ..before });
        }
        self.conclude(agent, i, result, Point::Refused(i))
    }

    pub(crate) fn prepare(&mut self, agent: &mut Agent, i: usize) -> (r: RunAction)
        requires
            i < old(self)@.calls.len(),
            old(self)@.slots.len() == old(self)@.calls.len(),
        ensures
            at(*final(self), *final(agent), r) == transition::prepare(
                old(self)@,
                old(agent)@,
                i as int,
            ),
    {
        proof {
            reveal(transition::prepare);
        }
        let call = self.call(i);
        match agent.tools.get(call.name.as_str()) {
            None => {
                let mut text = "Tool ".to_owned();
                text.push_str(call.name.as_str());
                text.push_str(" not found");
                let result = error_tool_result(&call, text);
                self.refuse(agent, i, result, false)
            },
            Some(tool) => {
                let schema = tool.schema.duplicate();
                self.ask(Point::Validating(i), RunAction::ValidateArguments { call, schema })
            },
        }
    }

    pub(crate) fn validated(
        &mut self,
        agent: &mut Agent,
        i: usize,
        verdict: Result<(), ToolError>,
        cancelled: bool,
    ) -> (r: RunAction)
        requires
            i < old(self)@.calls.len(),
            old(self)@.slots.len() == old(self)@.calls.len(),
        ensures
            at(*final(self), *final(agent), r) == transition::validated(
                old(self)@,
                old(agent)@,
                i as int,
                match verdict {
                    Ok(()) => Ok(()),
                    Err(error) => Err(error@),
                },
                cancelled,
            ),
    {
        proof {
            reveal(transition::validated);
        }
        let call = self.call(i);
        match verdict {
            Err(error) => {
                let result = error_tool_result(&call, tool_error_message(error));
                self.refuse(agent, i, result, false)
            },
            Ok(()) => {
                if agent.owner_run().is_none() {
                    let error = transition_error("agent", "not-running", "current_context");
                    return self.raise(agent, error, cancelled);
                }
                let context = current_context(agent);
                self.ask(Point::Deciding(i), RunAction::BeforeToolCall { call, context })
            },
        }
    }

    pub(crate) fn decided(
        &mut self,
        agent: &mut Agent,
        i: usize,
        decision: Result<BeforeToolCall, HookError>,
        cancelled: bool,
    ) -> (r: RunAction)
        requires
            i < old(self)@.calls.len(),
            old(self)@.slots.len() == old(self)@.calls.len(),
        ensures
            at(*final(self), *final(agent), r) == transition::decided(
                old(self)@,
                old(agent)@,
                i as int,
                transition::before_model(decision),
                cancelled,
            ),
    {
        proof {
            reveal(transition::decided);
        }
        let call = self.call(i);
        match decision {
            Err(error) => {
                let result = error_tool_result(&call, error.message);
                self.refuse(agent, i, result, false)
            },
            Ok(BeforeToolCall::Block { reason }) => {
                let result = error_tool_result(&call, reason);
                self.refuse(agent, i, result, false)
            },
            Ok(BeforeToolCall::Terminate { reason }) => {
                let result = error_tool_result(&call, reason);
                self.refuse(agent, i, result, true)
            },
            Ok(BeforeToolCall::Allow) => {
                if cancelled {
                    let result = error_tool_result(&call, "Operation aborted".to_owned());
                    return self.refuse(agent, i, result, false);
                }
                let ghost before = self@;
                let n = self.calls.len();
                assert(i < n);
                self.running.push(i);
                assert(self@ =~= RunModel { running: before.running.push(i), ..before });
                if self.parallel {
                    self.announce_or_launch(agent, i + 1)
                } else {
                    let indices = copy_indices(&self.running);
                    self.ask(Point::Launching, RunAction::StartTools(indices))
                }
            },
        }
    }

    pub(crate) fn announce_or_launch(&mut self, agent: &mut Agent, i: usize) -> (r: RunAction)
        requires
            old(self)@.slots.len() == old(self)@.calls.len(),
            i >= old(self)@.calls.len() && old(self)@.running.len() == 0 ==> {
                &&& old(self)@.calls.len() > 0
                &&& old(self)@.settled(0)
            },
        ensures
            at(*final(self), *final(agent), r) == transition::announce_or_launch(
                old(self)@,
                old(agent)@,
                i as int,
            ),
    {
        proof {
            reveal(transition::announce_or_launch);
        }
        if i < self.calls.len() {
            self.announce(agent, i, Point::Started(i))
        } else if self.running.len() == 0 {
            self.append_slot(agent, 0)
        } else {
            let indices = copy_indices(&self.running);
            self.ask(Point::Launching, RunAction::StartTools(indices))
        }
    }

    pub(crate) fn append_slot(&mut self, agent: &mut Agent, i: usize) -> (r: RunAction)
        requires
            i < old(self)@.calls.len(),
            old(self)@.slots.len() == old(self)@.calls.len(),
            old(self)@.settled(i as int),
        ensures
            at(*final(self), *final(agent), r) == transition::append_slot(
                old(self)@,
                old(agent)@,
                i as int,
            ),
    {
        proof {
            reveal(transition::append_slot);
        }
        let ghost before = self@;
        assert(self@.slots[i as int] == self.slots@[i as int]@);
        let result = duplicate_opt(&self.slots[i].result).unwrap();
        self.terminate = self.terminate && self.slots[i].terminate;
        assert(self@ =~= RunModel {
            terminate: before.terminate && before.slots[i as int].terminate,
            ..before
        });
        self.append(agent, i, result, Point::Appended(i))
    }

    pub(crate) fn progressed(
        &mut self,
        agent: &mut Agent,
        updates: Vec<PendingToolUpdate>,
        cancelled: bool,
    ) -> (r: RunAction)
        requires
            old(self)@.wf(),
            old(self)@.point == Point::Running,
        ensures
            at(*final(self), *final(agent), r) == transition::progressed(
                old(self)@,
                old(agent)@,
                crate::model::views(updates@),
                cancelled,
            ),
    {
        proof {
            reveal(transition::progressed);
        }
        let ghost before = self@;
        self.updated = update_ids(&updates);
        assert(self@ =~= RunModel {
            updated: transition::update_calls(crate::model::views(updates@)),
            ..before
        });
        proof {
            transition::lemma_wf_depends(before, self@);
        }
        if updates.len() == 0 {
            self.after_updates(agent, cancelled)
        } else {
            self.emit(update_kinds(updates), Point::Updated)
        }
    }

    pub(crate) fn is_reported(&self, index: usize) -> (r: bool)
        requires
            index < self@.calls.len(),
        ensures
            r == transition::reported(self@, index),
    {
        assert(self@.calls[index as int] == self.calls@[index as int]@);
        let mut k: usize = 0;
        while k < self.updated.len()
            invariant
                k <= self.updated@.len(),
                index < self@.calls.len(),
                index < self.calls@.len(),
                self@.calls[index as int] == self.calls@[index as int]@,
                forall|j: int|
                    0 <= j < k ==> #[trigger] self@.updated[j] != self@.calls[index as int].id,
            decreases self.updated.len() - k,
        {
            assert(self@.updated[k as int] == self.updated@[k as int]@);
            if self.updated[k].equals(&self.calls[index].id) {
                return true;
            }
            k = k + 1;
        }
        false
    }

    pub(crate) fn pick(&self, reporting: bool) -> (r: Vec<usize>)
        requires
            self@.indices(self@.running),
        ensures
            r@ == transition::kept(self@, self@.running, reporting),
    {
        let mut out: Vec<usize> = Vec::new();
        let mut k: usize = 0;
        assert(self.running@.take(0) =~= Seq::<usize>::empty());
        while k < self.running.len()
            invariant
                k <= self.running@.len(),
                self@.indices(self@.running),
                out@ == transition::kept(self@, self.running@.take(k as int), reporting),
            decreases self.running.len() - k,
        {
            let index = self.running[k];
            assert(self@.running[k as int] == index);
            proof {
                assert(self.running@.take(k + 1).drop_last() =~= self.running@.take(k as int));
            }
            if self.is_reported(index) == reporting {
                out.push(index);
            }
            k = k + 1;
        }
        assert(self.running@.take(k as int) =~= self.running@);
        out
    }

    pub(crate) fn after_updates(&mut self, agent: &mut Agent, cancelled: bool) -> (r: RunAction)
        requires
            old(self)@.batched(),
            old(self)@.siblings.len() == 0,
            old(self)@.calls.len() > 0,
            old(self)@.parallel ==> old(self)@.covers(old(self)@.calls.len() as int),
        ensures
            at(*final(self), *final(agent), r) == transition::after_updates(
                old(self)@,
                old(agent)@,
                cancelled,
            ),
    {
        proof {
            reveal(transition::after_updates);
        }
        if self.parallel && cancelled {
            let ghost before = self@;
            let running = self.pick(true);
            let siblings = self.pick(false);
            self.running = running;
            self.siblings = siblings;
            proof {
                assert(self@ =~= RunModel {
                    running: transition::kept(before, before.running, true),
                    siblings: transition::kept(before, before.running, false),
                    ..before
                });
                transition::lemma_split_covers(before);
            }
            self.next_sibling(agent)
        } else {
            self.ask(Point::Running, RunAction::AwaitTools)
        }
    }

    pub(crate) fn next_sibling(&mut self, agent: &mut Agent) -> (r: RunAction)
        requires
            old(self)@.batched(),
            old(self)@.calls.len() > 0,
            old(self)@.covers(old(self)@.calls.len() as int),
        ensures
            at(*final(self), *final(agent), r) == transition::next_sibling(
                old(self)@,
                old(agent)@,
            ),
    {
        proof {
            reveal(transition::next_sibling);
        }
        if self.siblings.len() == 0 {
            self.after_tool(agent)
        } else {
            let ghost before = self@;
            let index = self.siblings.remove(0);
            assert(self@.siblings =~= before.siblings.skip(1));
            assert(self@ =~= RunModel { siblings: before.siblings.skip(1), ..before });
            self.ask(Point::Polling(index), RunAction::PollOnce(index))
        }
    }

    pub(crate) fn after_tool(&mut self, agent: &mut Agent) -> (r: RunAction)
        requires
            old(self)@.batched(),
            old(self)@.calls.len() > 0,
            old(self)@.siblings.len() == 0,
            old(self)@.covers(old(self)@.calls.len() as int),
        ensures
            at(*final(self), *final(agent), r) == transition::after_tool(
                old(self)@,
                old(agent)@,
            ),
    {
        proof {
            reveal(transition::after_tool);
        }
        if self.running.len() == 0 {
            assert(self@.covered(0));
            self.append_slot(agent, 0)
        } else {
            self.ask(Point::Running, RunAction::AwaitTools)
        }
    }

    pub(crate) fn normalized(&self, i: usize, execution: Execution) -> (r: ToolResult)
        requires
            i < self@.calls.len(),
        ensures
            r@ == transition::normalized(
                self@.calls[i as int],
                transition::execution_model(execution),
            ),
    {
        let call = self.call(i);
        match execution {
            Ok(result) => if result.tool_call_id.equals(&call.id) {
                result
            } else {
                let mut text = "Tool ".to_owned();
                text.push_str(call.name.as_str());
                text.push_str(" returned mismatched tool-call ID ");
                text.push_str(result.tool_call_id.as_str());
                error_tool_result(&call, text)
            },
            Err(error) => error_tool_result(&call, tool_error_message(error)),
        }
    }

    pub(crate) fn review(
        &mut self,
        agent: &mut Agent,
        i: usize,
        point: Point,
        cancelled: bool,
    ) -> (r: RunAction)
        requires
            i < old(self)@.calls.len(),
            old(self)@.execution is Some,
        ensures
            at(*final(self), *final(agent), r) == transition::review(
                old(self)@,
                old(agent)@,
                i as int,
                old(self)@.execution->0,
                point,
                cancelled,
            ),
    {
        proof {
            reveal(transition::review);
        }
        if agent.owner_run().is_none() {
            let error = transition_error("agent", "not-running", "current_context");
            return self.raise(agent, error, cancelled);
        }
        let ghost before = self@;
        let mut slot: Option<Execution> = None;
        std::mem::swap(&mut slot, &mut self.execution);
        let result = self.normalized(i, slot.unwrap());
        let call = self.call(i);
        self.result = Some(result.duplicate());
        assert(self@ =~= RunModel { result: Some(result@), execution: None, ..before });
        let context = current_context(agent);
        self.ask(point, RunAction::AfterToolCall { call, result, context })
    }

    pub(crate) fn settle_tool(
        &mut self,
        agent: &mut Agent,
        i: usize,
        result: ToolResult,
        terminate: bool,
        point: Point,
    ) -> (r: RunAction)
        requires
            i < old(self)@.calls.len(),
            old(self)@.slots.len() == old(self)@.calls.len(),
        ensures
            at(*final(self), *final(agent), r) == transition::settle_tool(
                old(self)@,
                old(agent)@,
                i as int,
                SlotModel { result: Some(result@), terminate },
                point,
            ),
    {
        proof {
            reveal(transition::settle_tool);
        }
        let ghost before = self@;
        self.slots[i] = ToolSlot { result: Some(result.duplicate()), terminate };
        self.result = None;
        self.execution = None;
        proof {
            let slot = SlotModel { result: Some(result@), terminate };
            assert(self@.slots =~= before.slots.update(i as int, slot));
            assert(self@ =~= RunModel {
                slots: before.slots.update(i as int, slot),
                result: None,
                execution: None,
                ..before
            });
        }
        self.conclude(agent, i, result, point)
    }

    pub(crate) fn sibling_flushed(&mut self, agent: &mut Agent, i: usize, cancelled: bool) -> (r: RunAction)
        requires
            i < old(self)@.calls.len(),
            old(self)@.slots.len() == old(self)@.calls.len(),
        ensures
            at(*final(self), *final(agent), r) == transition::sibling_flushed(
                old(self)@,
                old(agent)@,
                i as int,
                cancelled,
            ),
    {
        proof {
            reveal(transition::sibling_flushed);
        }
        if self.execution.is_some() {
            self.review(agent, i, Point::PolledReview(i), cancelled)
        } else {
            let call = self.call(i);
            let result = error_tool_result(&call, "Operation aborted".to_owned());
            self.settle_tool(agent, i, result, false, Point::PolledEnded)
        }
    }

    pub(crate) fn position(&self, index: usize) -> (r: usize)
        ensures
            r == transition::place(self@.running, index),
            r <= self@.running.len(),
            r < self@.running.len() ==> self@.running[r as int] == index,
            r == self@.running.len() ==> !self@.running.contains(index),
    {
        let mut k: usize = 0;
        assert(self.running@.skip(0) =~= self.running@);
        while k < self.running.len()
            invariant
                k <= self.running@.len(),
                transition::place(self.running@, index) == k + transition::place(
                    self.running@.skip(k as int),
                    index,
                ),
                forall|j: int| 0 <= j < k ==> self.running@[j] != index,
            decreases self.running.len() - k,
        {
            let ghost rest = self.running@.skip(k as int);
            if self.running[k] == index {
                assert(rest[0] == index);
                return k;
            }
            assert(rest.drop_first() =~= self.running@.skip(k + 1));
            k = k + 1;
        }
        k
    }

    pub(crate) fn completed(
        &mut self,
        agent: &mut Agent,
        index: usize,
        execution: Execution,
        updates: Vec<PendingToolUpdate>,
        cancelled: bool,
    ) -> (r: RunAction)
        requires
            old(self)@.indices(old(self)@.running),
            old(self)@.running.contains(index),
        ensures
            at(*final(self), *final(agent), r) == transition::completed(
                old(self)@,
                old(agent)@,
                index,
                transition::execution_model(execution),
                crate::model::views(updates@),
                cancelled,
            ),
    {
        proof {
            reveal(transition::completed);
        }
        let ghost before = self@;
        let at_index = self.position(index);
        let _removed = self.running.swap_remove(at_index);
        self.execution = Some(execution);
        proof {
            let p = transition::place(before.running, index);
            assert(before.running[p] == index);
            assert(self@ =~= RunModel {
                running: before.running.update(p, before.running.last()).drop_last(),
                execution: Some(transition::execution_model(execution)),
                ..before
            });
        }
        if updates.len() == 0 {
            self.after_completion(agent, index, cancelled)
        } else {
            self.emit(update_kinds(updates), Point::Completed(index))
        }
    }

    pub(crate) fn after_completion(&mut self, agent: &mut Agent, i: usize, cancelled: bool) -> (r: RunAction)
        requires
            i < old(self)@.calls.len(),
            old(self)@.execution is Some,
        ensures
            at(*final(self), *final(agent), r) == transition::after_completion(
                old(self)@,
                old(agent)@,
                i as int,
                cancelled,
            ),
    {
        proof {
            reveal(transition::after_completion);
        }
        if self.parallel {
            self.review(agent, i, Point::Reviewing(i), cancelled)
        } else {
            self.ask(Point::Flushing(i), RunAction::FlushUpdates)
        }
    }

    pub(crate) fn take_review(&mut self, i: usize, review: Result<AfterToolCall, HookError>) -> (r: (
        ToolResult,
        bool,
    ))
        requires
            i < old(self)@.calls.len(),
            old(self)@.result is Some,
        ensures
            final(self)@ == (RunModel { result: None, ..old(self)@ }),
            r.0@ == transition::reviewed(
                old(self)@.calls[i as int],
                old(self)@.result->0,
                transition::after_model(review),
            ),
            r.1 == transition::asks_to_stop(r.0@, transition::after_model(review)),
    {
        let ghost before = self@;
        let call = self.call(i);
        let mut slot: Option<ToolResult> = None;
        std::mem::swap(&mut slot, &mut self.result);
        assert(self@ =~= RunModel { result: None, ..before });
        let mut result = slot.unwrap();
        match review {
            Ok(after) => {
                apply_after_tool_call(&mut result, after);
                let terminate = result.terminate;
                (result, terminate)
            },
            Err(error) => (error_tool_result(&call, error.message), false),
        }
    }

    pub(crate) fn after_review(
        &mut self,
        agent: &mut Agent,
        i: usize,
        review: Result<AfterToolCall, HookError>,
    ) -> (r: RunAction)
        requires
            i < old(self)@.calls.len(),
            old(self)@.slots.len() == old(self)@.calls.len(),
            old(self)@.result is Some,
        ensures
            at(*final(self), *final(agent), r) == transition::after_review(
                old(self)@,
                old(agent)@,
                i as int,
                transition::after_model(review),
            ),
    {
        proof {
            reveal(transition::after_review);
            reveal(transition::settle_tool);
        }
        let ghost before = self@;
        let (result, terminate) = self.take_review(i, review);
        if self.parallel {
            self.slots[i] = ToolSlot { result: Some(result), terminate };
            proof {
                let slot = SlotModel { result: Some(result@), terminate };
                assert(self@.slots =~= before.slots.update(i as int, slot));
                assert(self@ =~= RunModel {
                    slots: before.slots.update(i as int, slot),
                    result: None,
                    ..before
                });
            }
            self.ask(Point::ReviewedFlush(i), RunAction::FlushUpdates)
        } else {
            self.settle_tool(agent, i, result, terminate, Point::Ended(i))
        }
    }

    pub(crate) fn after_append(&mut self, agent: &mut Agent, i: usize) -> (r: RunAction)
        requires
            i < old(self)@.calls.len(),
            old(self)@.slots.len() == old(self)@.calls.len(),
            old(self)@.parallel && i + 1 < old(self)@.calls.len() ==> old(self)@.settled(i + 1),
        ensures
            at(*final(self), *final(agent), r) == transition::after_append(
                old(self)@,
                old(agent)@,
                i as int,
            ),
    {
        proof {
            reveal(transition::after_append);
        }
        let n = self.calls.len();
        assert(i < n);
        if i + 1 < n {
            if self.parallel {
                self.append_slot(agent, i + 1)
            } else {
                let ghost before = self@;
                self.running = Vec::new();
                assert(self@ =~= RunModel { running: Seq::empty(), ..before });
                self.announce(agent, i + 1, Point::Started(i + 1))
            }
        } else {
            self.end_turn()
        }
    }

    pub(crate) fn turn_ended(&mut self, agent: &mut Agent, cancelled: bool) -> (r: RunAction)
        ensures
            at(*final(self), *final(agent), r) == transition::turn_ended(
                old(self)@,
                old(agent)@,
                cancelled,
            ),
    {
        proof {
            reveal(transition::turn_ended);
        }
        if agent.owner_run().is_none() {
            let error = transition_error("agent", "not-running", "current_context");
            return self.raise(agent, error, cancelled);
        }
        let ghost before = self@;
        let context = current_context(agent);
        self.context = Some(context.duplicate());
        assert(self@ =~= RunModel { context: Some(context@), ..before });
        self.ask(Point::Preparing, RunAction::PrepareNextTurn(context))
    }

    pub(crate) fn prepared(&mut self, agent: &mut Agent, next_turn: NextTurn) -> (r: RunAction)
        requires
            old(self)@.context is Some,
        ensures
            at(*final(self), *final(agent), r) == transition::prepared(
                old(self)@,
                old(agent)@,
                next_turn@,
            ),
    {
        proof {
            reveal(transition::prepared);
        }
        let ghost before = self@;
        if let Some(context) = next_turn.context {
            self.context = Some(context);
        }
        if let Some(model) = next_turn.model {
            self.model_override = Some(model);
        }
        if let Some(level) = next_turn.thinking_level {
            self.thinking_override = Some(level);
        }
        let context = duplicate_opt(&self.context).unwrap();
        proof {
            assert(self@ =~= RunModel {
                context: Some(context@),
                model_override: match next_turn@.model {
                    Some(model) => Some(model),
                    None => before.model_override,
                },
                thinking_override: match next_turn@.thinking_level {
                    Some(level) => Some(level),
                    None => before.thinking_override,
                },
                ..before
            });
        }
        self.ask(Point::Asking, RunAction::AskStop(context))
    }

    pub(crate) fn close(&mut self, agent: &mut Agent) -> (r: RunAction)
        ensures
            at(*final(self), *final(agent), r) == transition::close(old(self)@, old(agent)@),
    {
        proof {
            reveal(transition::close);
        }
        let messages = self.new_messages(agent);
        self.emit(one(AgentEventKind::AgentEnd { messages }), Point::Closing)
    }

    pub(crate) fn answered(&mut self, agent: &mut Agent, stop: bool, cancelled: bool) -> (r: RunAction)
        ensures
            at(*final(self), *final(agent), r) == transition::answered(
                old(self)@,
                old(agent)@,
                stop,
                cancelled,
            ),
    {
        proof {
            reveal(transition::answered);
        }
        if stop {
            return self.close(agent);
        }
        let ghost before = self@;
        let wants_response = self.calls.len() > 0 && !self.terminate;
        let queued = next_queued(agent, wants_response);
        if !wants_response && queued.len() == 0 {
            return self.close(agent);
        }
        self.turn_id = TurnId(self.turn_id.0.saturating_add(1));
        self.queued = queued;
        let turn_id = self.turn_id;
        assert(self@ =~= RunModel {
            turn_id,
            queued: crate::model::views(queued@),
            ..before
        });
        if self.state.phase != RunPhase::Running {
            let error = transition_error("run", phase_name(self.state.phase), "advance_turn");
            return self.raise(agent, error, cancelled);
        }
        self.state.turn_id = Some(turn_id);
        assert(self@ =~= RunModel {
            state: RunStateModel { turn_id: Some(turn_id), ..before.state },
            turn_id,
            queued: crate::model::views(queued@),
            ..before
        });
        self.emit(one(AgentEventKind::TurnStart { turn_id }), Point::TurnStarted)
    }

    pub(crate) fn response_failed(&mut self, agent: &mut Agent, cancelled: bool) -> (r: RunAction)
        ensures
            at(*final(self), *final(agent), r) == transition::response_failed(
                old(self)@,
                old(agent)@,
                cancelled,
            ),
    {
        proof {
            reveal(transition::response_failed);
        }
        let text = match &self.stream.error_message {
            Some(text) => text.clone(),
            None => if self.reason == StopReason::Aborted {
                "model response was aborted".to_owned()
            } else {
                "model response failed".to_owned()
            },
        };
        assert(text@ == transition::response_text(self@));
        if self.state.phase.is_terminal() {
            let run_id = self.state.id;
            return self.done(Err(CoreError::RunFinished { run_id }));
        }
        let aborted = self.reason == StopReason::Aborted;
        if aborted && cancelled {
            let _ = self.finish(agent, RunPhase::Cancelled, StopReason::Aborted, None);
            return self.done(Err(CoreError::Cancelled));
        }
        let _ = self.finish(agent, RunPhase::Failed, StopReason::Error, Some(text.clone()));
        if aborted {
            self.done(Err(CoreError::ModelAborted { message: text }))
        } else {
            self.done(Err(CoreError::ModelError { message: text }))
        }
    }

    pub(crate) fn closed(&mut self, agent: &mut Agent) -> (r: RunAction)
        ensures
            at(*final(self), *final(agent), r) == transition::closed(old(self)@, old(agent)@),
    {
        proof {
            reveal(transition::closed);
        }
        let reason = self.reason;
        match self.finish(agent, RunPhase::Succeeded, reason, None) {
            Ok(()) => self.done(Ok(())),
            Err(error) => self.done(Err(error)),
        }
    }

    pub(crate) fn after_refusal(&mut self, agent: &mut Agent, i: usize) -> (r: RunAction)
        requires
            old(self)@.wf(),
            old(self)@.point == Point::Refused(i),
        ensures
            at(*final(self), *final(agent), r) == transition::after_refusal(
                old(self)@,
                old(agent)@,
                i as int,
            ),
    {
        proof {
            reveal(transition::after_refusal);
        }
        let n = self.calls.len();
        assert(i < n);
        if self.parallel {
            assert(0 < i ==> self@.covered(0));
            self.announce_or_launch(agent, i + 1)
        } else {
            self.append_slot(agent, i)
        }
    }

    /// The point that the run has reached.
    pub(crate) fn point(&self) -> (r: Point)
        ensures
            r == self@.point,
    {
        self.point
    }

    /// Whether events wait to be published.
    pub(crate) fn waiting(&self) -> (r: bool)
        ensures
            r == (self@.outbox.len() > 0),
    {
        self.outbox.len() > 0
    }

    /// Whether the batch executes in parallel.
    pub(crate) fn is_parallel(&self) -> (r: bool)
        ensures
            r == self@.parallel,
    {
        self.parallel
    }

    /// The number of calls in the batch.
    pub(crate) fn call_count(&self) -> (r: usize)
        ensures
            r == self@.calls.len(),
    {
        self.calls.len()
    }

    /// The lifecycle phase.
    pub(crate) fn phase(&self) -> (r: RunPhase)
        ensures
            r == self@.state.phase,
    {
        self.state.phase
    }

    /// Forget that tools asked to stop.
    pub(crate) fn clear_terminate(&mut self)
        ensures
            final(self)@ == (RunModel { terminate: false, ..old(self)@ }),
    {
        let ghost before = self@;
        self.terminate = false;
        assert(self@ =~= RunModel { terminate: false, ..before });
    }

    /// Note what a sibling returned when polled.
    pub(crate) fn note_execution(&mut self, execution: Option<Execution>)
        ensures
            final(self)@ == (RunModel {
                execution: transition::execution_opt(execution),
                ..old(self)@
            }),
    {
        let ghost before = self@;
        self.execution = execution;
        assert(self@ =~= RunModel { execution: transition::execution_opt(execution), ..before });
    }

    /// Begin to reduce a provider stream.
    pub(crate) fn open_stream(&mut self)
        ensures
            final(self)@ == (RunModel {
                stream: crate::stream::StreamModel::fresh(),
                ..old(self)@
            }),
    {
        let ghost before = self@;
        self.stream = AssistantStream::new();
        assert(self@ =~= RunModel { stream: crate::stream::StreamModel::fresh(), ..before });
    }

    /// The result that a call of the batch settled with.
    pub(crate) fn slot_result(&self, i: usize) -> (r: ToolResult)
        requires
            i < self@.slots.len(),
            self@.settled(i as int),
        ensures
            r@ == self@.slots[i as int].result->0,
    {
        assert(self@.slots[i as int] == self.slots@[i as int]@);
        duplicate_opt(&self.slots[i].result).unwrap()
    }

    /// Refuse an outcome that answers no pending action.
    pub(crate) fn out_of_step(&mut self, agent: &mut Agent, cancelled: bool) -> (r: RunAction)
        ensures
            at(*final(self), *final(agent), r) == transition::raise(
                old(self)@,
                old(agent)@,
                transition::out_of_step(old(self)@),
                cancelled,
            ),
    {
        let error = transition_error("run", phase_name(self.state.phase), "step");
        self.raise(agent, error, cancelled)
    }

    /// Publish the end of the run.
    pub(crate) fn announce_end(&mut self, agent: &mut Agent, point: Point) -> (r: RunAction)
        ensures
            at(*final(self), *final(agent), r) == transition::emit(
                old(self)@,
                old(agent)@,
                seq![
                    EventKindModel::AgentEnd {
                        messages: transition::new_messages(old(self)@, old(agent)@),
                    },
                ],
                point,
            ),
    {
        let messages = self.new_messages(agent);
        self.emit(one(AgentEventKind::AgentEnd { messages }), point)
    }

    /// Settle a failed run.
    pub(crate) fn settle_failed(&mut self, agent: &mut Agent, cancelled: bool) -> (r: RunAction)
        requires
            old(self)@.error is Some,
            old(self)@.point == Point::FailureEnd,
        ensures
            at(*final(self), *final(agent), r) == transition::resume(
                old(self)@,
                old(agent)@,
                cancelled,
            ),
    {
        proof {
            reveal(transition::resume);
        }
        let error = duplicate_opt(&self.error).unwrap();
        let text = error.text();
        let _ = self.finish(agent, RunPhase::Failed, StopReason::Error, Some(text));
        self.done(Err(error))
    }

    /// Settle a cancelled run.
    pub(crate) fn settle_stopped(&mut self, agent: &mut Agent, cancelled: bool) -> (r: RunAction)
        requires
            old(self)@.error is Some,
            old(self)@.point == Point::CancelEnd,
        ensures
            at(*final(self), *final(agent), r) == transition::resume(
                old(self)@,
                old(agent)@,
                cancelled,
            ),
    {
        proof {
            reveal(transition::resume);
        }
        let error = duplicate_opt(&self.error).unwrap();
        let _ = self.finish(agent, RunPhase::Cancelled, StopReason::Aborted, None);
        self.done(Err(error))
    }

    /// Publish the updates that waited beside a tool.
    pub(crate) fn flushed(
        &mut self,
        agent: &mut Agent,
        updates: Vec<PendingToolUpdate>,
        point: Point,
    ) -> (r: RunAction)
        requires
            updates@.len() > 0,
        ensures
            at(*final(self), *final(agent), r) == transition::flushed(
                old(self)@,
                old(agent)@,
                crate::model::views(updates@),
                point,
            ),
    {
        self.emit(update_kinds(updates), point)
    }

    /// Whether the call with an index executes.
    pub(crate) fn runs(&self, index: usize) -> (r: bool)
        ensures
            r == self@.running.contains(index),
    {
        let mut k: usize = 0;
        while k < self.running.len()
            invariant
                k <= self.running@.len(),
                forall|j: int| 0 <= j < k ==> self.running@[j] != index,
            decreases self.running@.len() - k,
        {
            if self.running[k] == index {
                assert(self@.running[k as int] == index);
                return true;
            }
            k = k + 1;
        }
        false
    }
}

fn copy_indices(v: &Vec<usize>) -> (r: Vec<usize>)
    ensures
        r@ == v@,
{
    let mut out: Vec<usize> = Vec::new();
    let mut i: usize = 0;
    while i < v.len()
        invariant
            i <= v@.len(),
            out@ == v@.take(i as int),
        decreases v.len() - i,
    {
        out.push(v[i]);
        i = i + 1;
        assert(out@ =~= v@.take(i as int));
    }
    assert(v@.take(i as int) =~= v@);
    out
}

} // verus!
