//! What holds of every step of every run.
//!
//! [`crate::transition::next`] says what one step does. The laws here speak of all of them:
//! whatever the host answers, and whether or not the run was cancelled, a step publishes
//! exactly the events that it records, history only grows, and a run gets one outcome, after
//! which its agent is idle.

use crate::agent::{AgentModel, owner};
use crate::batches::{lemma_sequence_wanted, names_a_sequential_tool};
use crate::error::{CoreErrorModel, ToolErrorModel};
use crate::event::EventKindModel;
use crate::hooks::{AfterModel, BeforeModel};
use crate::queue::QueueModel;
use crate::scheduler::StreamEventModel;
use crate::state::{AccountingModel, AgentPhase, CallModel, MessageModel, RunPhase};
use crate::tool::{DefinitionModel, ToolResultModel};
use crate::transition::{
    aborted, account, after_append, after_completion, after_refusal, after_response, after_review,
    after_tool, after_updates, announce, announce_or_launch, answered, append, append_slot, close,
    closed, completed, conclude, connect, decided, end_turn, inject, next, next_sibling, opened,
    out_of_step, prepare, prepared, progressed, raise, refuse, refused, request_model,
    response_failed, resume, review, settle_cancellation, settle_failure, settle_tool,
    sibling_flushed, start, stream_ended, streamed, turn_ended, validated, wants_response, ActionModel, InputModel,
    Next, PendingUpdateModel, Point, RunModel, SlotModel,
};
use vstd::prelude::*;

verus! {

/// Whether a transcript only grew: messages were appended, and at most the last one was
/// completed, as an assistant message.
pub open spec fn grew(before: Seq<MessageModel>, after: Seq<MessageModel>) -> bool {
    &&& before.len() <= after.len()
    &&& forall|i: int| 0 <= i < before.len() - 1 ==> #[trigger] after[i] == before[i]
    &&& before.len() > 0 ==> after[before.len() - 1] == before[before.len() - 1]
        || after[before.len() - 1] is Assistant
}

/// Whether a queue only lost messages from its front.
pub open spec fn drained(before: QueueModel, after: QueueModel) -> bool {
    &&& after.next_sequence == before.next_sequence
    &&& after.entries.len() <= before.entries.len()
    &&& after.entries == before.entries.skip(before.entries.len() - after.entries.len())
}

/// Whether the parts of an agent that a run may not touch are unchanged.
pub open spec fn same_setup(before: AgentModel, after: AgentModel) -> bool {
    &&& after.tools == before.tools
    &&& after.steering == before.steering
    &&& after.follow_up == before.follow_up
    &&& after.provider == before.provider
    &&& after.compactor == before.compactor
    &&& after.run_count == before.run_count
    &&& after.state.system_prompt == before.state.system_prompt
    &&& after.state.model == before.state.model
    &&& after.state.thinking_level == before.state.thinking_level
    &&& after.state.host_messages == before.state.host_messages
}

/// Whether an agent is idle without anything that only a run in progress may leave behind.
pub open spec fn at_rest(agent: AgentModel) -> bool {
    &&& agent.state.phase == AgentPhase::Idle
    &&& agent.active_run is None
    &&& agent.state.partial_response is None
    &&& !agent.state.is_streaming
    &&& agent.state.pending_tool_calls == Set::<Seq<char>>::empty()
}

/// Whether a step recorded exactly the event that it publishes.
pub open spec fn publishes(run: RunModel, step: Next) -> bool {
    match step.action {
        ActionModel::Publish(event) => {
            &&& event == run.state.next_event(event.kind)
            &&& step.run.state.events == run.state.events.push(event)
            &&& step.run.state.event_count == run.state.recorded(event.kind).event_count
        },
        _ => {
            &&& step.run.state.events == run.state.events
            &&& step.run.state.event_count == run.state.event_count
        },
    }
}

/// Whether a step treats the outcome of a run as it must: an outcome never changes, a step that
/// gives one is the last and leaves the agent at rest, and no other step settles the agent.
pub open spec fn settles(run: RunModel, agent: AgentModel, step: Next) -> bool {
    &&& step.action is Done ==> step.run.state.phase.terminal()
    &&& if run.state.phase.terminal() {
        &&& step.run.state.phase == run.state.phase
        &&& step.run.state.stop_reason == run.state.stop_reason
        &&& step.run.state.error == run.state.error
        &&& step.agent.active_run == agent.active_run
    } else if step.run.state.phase.terminal() {
        step.action is Done && at_rest(step.agent)
    } else {
        &&& step.agent.active_run == agent.active_run
        &&& step.agent.state.phase == agent.state.phase
    }
}

/// What holds of every step.
pub open spec fn lawful(run: RunModel, agent: AgentModel, step: Next) -> bool {
    &&& step.run.state.id == run.state.id
    &&& publishes(run, step)
    &&& settles(run, agent, step)
    &&& grew(agent.state.messages, step.agent.state.messages)
    &&& same_setup(agent, step.agent)
    &&& drained(agent.queues.steering, step.agent.queues.steering)
    &&& drained(agent.queues.follow_up, step.agent.queues.follow_up)
    &&& accounted(agent.state.accounting, step.agent.state.accounting)
    &&& keeps_batch(run, agent, step)
    &&& step.action is StartTools ==> in_batch(run.point) && (run.parallel || run.point is Deciding)
}

/// Whether a point lies inside a batch of calls.
pub open spec fn in_batch(point: Point) -> bool {
    match point {
        Point::Started(_) | Point::Validating(_) | Point::Deciding(_) | Point::Refused(_)
        | Point::Launching | Point::Running | Point::Updated | Point::Polling(_)
        | Point::PolledFlush(_) | Point::PolledReview(_) | Point::PolledEnded
        | Point::Completed(_) | Point::Flushing(_) | Point::Reviewing(_)
        | Point::ReviewedFlush(_) | Point::Ended(_) | Point::Appended(_) => true,
        _ => false,
    }
}

/// Whether some call names a tool that must run alone.
#[verifier::opaque]
pub open spec fn wants_order(calls: Seq<CallModel>, tools: Seq<DefinitionModel>) -> bool {
    names_a_sequential_tool(calls, tools)
}

/// Whether a step starts a batch, in parallel exactly where no call names a tool that must run
/// alone.
pub open spec fn starts_batch(agent: AgentModel, step: Next) -> bool {
    &&& step.run.point == Point::Started(0)
    &&& step.run.parallel == !wants_order(step.run.calls, agent.tools)
}

/// Whether a step leaves a batch as it is, or starts one.
pub open spec fn keeps_batch(run: RunModel, agent: AgentModel, step: Next) -> bool {
    ||| step.run.calls == run.calls && step.run.parallel == run.parallel
    ||| !in_batch(step.run.point)
    ||| starts_batch(agent, step)
}

/// Whether accounting changed by at most one turn, which stands at its end and is added to its
/// aggregate.
pub open spec fn accounted(before: AccountingModel, after: AccountingModel) -> bool {
    after == before || (after.turns.len() == before.turns.len() + 1 && after == before.recorded(
        after.turns.last(),
    ))
}

proof fn lemma_undrained(queue: QueueModel)
    ensures
        drained(queue, queue),
{
    assert(queue.entries.skip(0) =~= queue.entries);
}

proof fn lemma_drained_twice(a: QueueModel, b: QueueModel, c: QueueModel)
    requires
        drained(a, b),
        drained(b, c),
    ensures
        drained(a, c),
{
    assert(c.entries =~= a.entries.skip(a.entries.len() - c.entries.len()));
}

proof fn lemma_raise(run: RunModel, agent: AgentModel, error: CoreErrorModel, cancelled: bool)
    ensures
        lawful(run, agent, raise(run, agent, error, cancelled)),
{
    reveal(raise);
    lemma_undrained(agent.queues.steering);
    lemma_undrained(agent.queues.follow_up);
    reveal(settle_failure);
    reveal(settle_cancellation);
}

proof fn lemma_start(run: RunModel, agent: AgentModel, cancelled: bool)
    ensures
        lawful(run, agent, start(run, agent, cancelled)),
{
    reveal(start);
    lemma_undrained(agent.queues.steering);
    lemma_undrained(agent.queues.follow_up);
    let begun = RunModel {
        state: crate::state::RunStateModel {
            phase: RunPhase::Running,
            turn_id: Some(crate::state::TurnId(1)),
            ..run.state
        },
        turn_id: crate::state::TurnId(1),
        ..run
    };
    lemma_raise(
        run,
        agent,
        refused("run"@, run.state.phase.spec_name(), "start_turn"@),
        cancelled,
    );
    lemma_raise(begun, agent, refused("agent"@, "not-running"@, "drive"@), cancelled);
}

proof fn lemma_request_model(run: RunModel, agent: AgentModel, cancelled: bool)
    ensures
        lawful(run, agent, request_model(run, agent, cancelled)),
{
    reveal(request_model);
    lemma_undrained(agent.queues.steering);
    lemma_undrained(agent.queues.follow_up);
    lemma_raise(run, agent, refused("agent"@, "not-running"@, "model_request"@), cancelled);
    lemma_raise(run, agent, CoreErrorModel::Cancelled, cancelled);
}

proof fn lemma_inject(run: RunModel, agent: AgentModel, cancelled: bool)
    ensures
        lawful(run, agent, inject(run, agent, cancelled)),
{
    reveal(inject);
    lemma_undrained(agent.queues.steering);
    lemma_undrained(agent.queues.follow_up);
    lemma_request_model(run, agent, cancelled);
}

proof fn lemma_opened(run: RunModel, agent: AgentModel, cancelled: bool)
    ensures
        lawful(run, agent, opened(run, agent, cancelled)),
{
    reveal(opened);
    lemma_undrained(agent.queues.steering);
    lemma_undrained(agent.queues.follow_up);
    lemma_request_model(RunModel { context: None, ..run }, agent, cancelled);
    lemma_raise(run, agent, refused("agent"@, "not-running"@, "current_context"@), cancelled);
    lemma_after_drain(agent.queues.steering, agent.steering);
    let fed = RunModel {
        context: Some(crate::transition::context_of(agent)),
        queued: agent.queues.steering.drained(agent.steering),
        ..run
    };
    let next_agent = AgentModel {
        queues: crate::queue::QueuesModel {
            steering: agent.queues.steering.after_drain(agent.steering),
            ..agent.queues
        },
        ..agent
    };
    lemma_inject(fed, next_agent, cancelled);
    lemma_drained_twice(
        agent.queues.steering,
        next_agent.queues.steering,
        inject(fed, next_agent, cancelled).agent.queues.steering,
    );
}

proof fn lemma_connect(run: RunModel, agent: AgentModel, text: Seq<char>, cancelled: bool)
    ensures
        lawful(run, agent, connect(run, agent, text, cancelled)),
{
    reveal(connect);
    lemma_undrained(agent.queues.steering);
    lemma_undrained(agent.queues.follow_up);
    let request = crate::scheduler::RequestModel { context: text, ..run.request->0 };
    lemma_raise(
        RunModel { request: None, turn_model: request.model, ..run },
        agent,
        CoreErrorModel::MissingModelProvider,
        cancelled,
    );
}

proof fn lemma_streamed(run: RunModel, agent: AgentModel, event: StreamEventModel, cancelled: bool)
    ensures
        lawful(run, agent, streamed(run, agent, event, cancelled)),
{
    reveal(streamed);
    lemma_undrained(agent.queues.steering);
    lemma_undrained(agent.queues.follow_up);
    lemma_raise(
        run,
        agent,
        CoreErrorModel::UnsupportedModelStream {
            message: "model stream contained events after its terminal event"@,
        },
        cancelled,
    );
}

proof fn lemma_stream_ended(run: RunModel, agent: AgentModel, cancelled: bool)
    ensures
        lawful(run, agent, stream_ended(run, agent, cancelled)),
{
    reveal(stream_ended);
    lemma_undrained(agent.queues.steering);
    lemma_undrained(agent.queues.follow_up);
    lemma_raise(
        run,
        agent,
        CoreErrorModel::UnsupportedModelStream {
            message: "model stream ended without a terminal event"@,
        },
        cancelled,
    );
}

proof fn lemma_end_turn(run: RunModel, agent: AgentModel)
    ensures
        lawful(run, agent, end_turn(run, agent)),
{
    reveal(end_turn);
    lemma_undrained(agent.queues.steering);
    lemma_undrained(agent.queues.follow_up);
}

proof fn lemma_announce(run: RunModel, agent: AgentModel, i: int, point: Point)
    ensures
        lawful(run, agent, announce(run, agent, i, point)),
        announce(run, agent, i, point).action is Publish,
        announce(run, agent, i, point).run.point == point,
        announce(run, agent, i, point).run.calls == run.calls,
        announce(run, agent, i, point).run.parallel == run.parallel,
{
    reveal(announce);
    lemma_undrained(agent.queues.steering);
    lemma_undrained(agent.queues.follow_up);
}

proof fn lemma_conclude(run: RunModel, agent: AgentModel, i: int, result: ToolResultModel, point: Point)
    ensures
        lawful(run, agent, conclude(run, agent, i, result, point)),
{
    reveal(conclude);
    lemma_undrained(agent.queues.steering);
    lemma_undrained(agent.queues.follow_up);
}

proof fn lemma_append(run: RunModel, agent: AgentModel, i: int, result: ToolResultModel, point: Point)
    ensures
        lawful(run, agent, append(run, agent, i, result, point)),
{
    reveal(append);
    lemma_undrained(agent.queues.steering);
    lemma_undrained(agent.queues.follow_up);
}

proof fn lemma_after_response(run: RunModel, agent: AgentModel, cancelled: bool)
    ensures
        lawful(run, agent, after_response(run, agent, cancelled)),
{
    reveal(after_response);
    reveal(wants_order);
    lemma_sequence_wanted(run, agent);
    lemma_undrained(agent.queues.steering);
    lemma_undrained(agent.queues.follow_up);
    lemma_end_turn(RunModel { terminate: false, ..run }, agent);
    lemma_announce(run, agent, 0, Point::TruncatedStarted(0));
    lemma_raise(
        run,
        agent,
        CoreErrorModel::UnsupportedModelStream {
            message: "assistant emitted tool calls with terminal reason "@
                + crate::transition::reason_name(run.reason) + ", expected ToolUse"@,
        },
        cancelled,
    );
    lemma_announce(
        RunModel {
            parallel: !crate::transition::wants_sequence(run, agent),
            slots: Seq::new(
                run.calls.len(),
                |i: int| SlotModel { result: None, terminate: false },
            ),
            running: Seq::empty(),
            siblings: Seq::empty(),
            terminate: true,
            ..run
        },
        agent,
        0,
        Point::Started(0),
    );
}

proof fn lemma_account(run: RunModel, agent: AgentModel, cancelled: bool)
    ensures
        lawful(run, agent, account(run, agent, cancelled)),
{
    reveal(account);
    lemma_undrained(agent.queues.steering);
    lemma_undrained(agent.queues.follow_up);
    lemma_after_response(run, agent, cancelled);
}

proof fn lemma_refuse(run: RunModel, agent: AgentModel, i: int, result: ToolResultModel, terminate: bool)
    ensures
        lawful(run, agent, refuse(run, agent, i, result, terminate)),
{
    reveal(refuse);
    lemma_undrained(agent.queues.steering);
    lemma_undrained(agent.queues.follow_up);
    lemma_conclude(
        RunModel {
            slots: run.slots.update(i, SlotModel { result: Some(result), terminate }),
            ..run
        },
        agent,
        i,
        result,
        Point::Refused(i as usize),
    );
}

proof fn lemma_prepare(run: RunModel, agent: AgentModel, i: int)
    ensures
        lawful(run, agent, prepare(run, agent, i)),
{
    reveal(prepare);
    lemma_undrained(agent.queues.steering);
    lemma_undrained(agent.queues.follow_up);
    let call = run.calls[i];
    lemma_refuse(
        run,
        agent,
        i,
        ToolResultModel::failed(call.id, "Tool "@ + call.name + " not found"@),
        false,
    );
}

proof fn lemma_validated(run: RunModel, agent: AgentModel, i: int, verdict: Result<(), ToolErrorModel>, cancelled: bool)
    ensures
        lawful(run, agent, validated(run, agent, i, verdict, cancelled)),
{
    reveal(validated);
    lemma_undrained(agent.queues.steering);
    lemma_undrained(agent.queues.follow_up);
    let call = run.calls[i];
    if let Err(error) = verdict {
        lemma_refuse(
            run,
            agent,
            i,
            ToolResultModel::failed(call.id, error.result_text()),
            false,
        );
    }
    lemma_raise(run, agent, refused("agent"@, "not-running"@, "current_context"@), cancelled);
}

proof fn lemma_append_slot(run: RunModel, agent: AgentModel, i: int)
    ensures
        lawful(run, agent, append_slot(run, agent, i)),
{
    reveal(append_slot);
    lemma_undrained(agent.queues.steering);
    lemma_undrained(agent.queues.follow_up);
    lemma_append(
        RunModel { terminate: run.terminate && run.slots[i].terminate, ..run },
        agent,
        i,
        run.slots[i].result->0,
        Point::Appended(i as usize),
    );
}

proof fn lemma_announce_or_launch(run: RunModel, agent: AgentModel, i: int)
    requires
        in_batch(run.point),
        run.parallel,
    ensures
        lawful(run, agent, announce_or_launch(run, agent, i)),
{
    reveal(announce_or_launch);
    lemma_undrained(agent.queues.steering);
    lemma_undrained(agent.queues.follow_up);
    lemma_announce(run, agent, i, Point::Started(i as usize));
    lemma_append_slot(run, agent, 0);
}

proof fn lemma_decided(run: RunModel, agent: AgentModel, i: int, decision: Result<BeforeModel, Seq<char>>, cancelled: bool)
    requires
        run.point is Deciding,
    ensures
        lawful(run, agent, decided(run, agent, i, decision, cancelled)),
{
    reveal(decided);
    lemma_undrained(agent.queues.steering);
    lemma_undrained(agent.queues.follow_up);
    let call = run.calls[i];
    match decision {
        Err(text) => lemma_refuse(
            run,
            agent,
            i,
            ToolResultModel::failed(call.id, text),
            false,
        ),
        Ok(BeforeModel::Block { reason }) => lemma_refuse(
            run,
            agent,
            i,
            ToolResultModel::failed(call.id, reason),
            false,
        ),
        Ok(BeforeModel::Terminate { reason }) => lemma_refuse(
            run,
            agent,
            i,
            ToolResultModel::failed(call.id, reason),
            true,
        ),
        Ok(BeforeModel::Allow) => {
            lemma_refuse(
                run,
                agent,
                i,
                ToolResultModel::failed(call.id, "Operation aborted"@),
                false,
            );
            if run.parallel {
                lemma_announce_or_launch(
                    RunModel { running: run.running.push(i as usize), ..run },
                    agent,
                    i + 1,
                );
            }
        },
    }
}

proof fn lemma_after_refusal(run: RunModel, agent: AgentModel, i: int)
    requires
        run.point is Refused,
    ensures
        lawful(run, agent, after_refusal(run, agent, i)),
{
    reveal(after_refusal);
    lemma_undrained(agent.queues.steering);
    lemma_undrained(agent.queues.follow_up);
    if run.parallel {
        lemma_announce_or_launch(run, agent, i + 1);
    }
    lemma_append_slot(run, agent, i);
}

proof fn lemma_after_tool(run: RunModel, agent: AgentModel)
    ensures
        lawful(run, agent, after_tool(run, agent)),
{
    reveal(after_tool);
    lemma_undrained(agent.queues.steering);
    lemma_undrained(agent.queues.follow_up);
    lemma_append_slot(run, agent, 0);
}

proof fn lemma_next_sibling(run: RunModel, agent: AgentModel)
    ensures
        lawful(run, agent, next_sibling(run, agent)),
{
    reveal(next_sibling);
    lemma_undrained(agent.queues.steering);
    lemma_undrained(agent.queues.follow_up);
    lemma_after_tool(run, agent);
}

proof fn lemma_after_updates(run: RunModel, agent: AgentModel, cancelled: bool)
    ensures
        lawful(run, agent, after_updates(run, agent, cancelled)),
{
    reveal(after_updates);
    lemma_undrained(agent.queues.steering);
    lemma_undrained(agent.queues.follow_up);
    lemma_next_sibling(
        RunModel {
            running: crate::transition::kept(run, run.running, true),
            siblings: crate::transition::kept(run, run.running, false),
            ..run
        },
        agent,
    );
}

proof fn lemma_progressed(run: RunModel, agent: AgentModel, updates: Seq<PendingUpdateModel>, cancelled: bool)
    ensures
        lawful(run, agent, progressed(run, agent, updates, cancelled)),
{
    reveal(progressed);
    lemma_undrained(agent.queues.steering);
    lemma_undrained(agent.queues.follow_up);
    lemma_after_updates(
        RunModel { updated: crate::transition::update_calls(updates), ..run },
        agent,
        cancelled,
    );
}

proof fn lemma_review(run: RunModel, agent: AgentModel, i: int, execution: Result<ToolResultModel, ToolErrorModel>, point: Point, cancelled: bool)
    ensures
        lawful(run, agent, review(run, agent, i, execution, point, cancelled)),
{
    reveal(review);
    lemma_undrained(agent.queues.steering);
    lemma_undrained(agent.queues.follow_up);
    lemma_raise(run, agent, refused("agent"@, "not-running"@, "current_context"@), cancelled);
}

proof fn lemma_settle_tool(run: RunModel, agent: AgentModel, i: int, slot: SlotModel, point: Point)
    ensures
        lawful(run, agent, settle_tool(run, agent, i, slot, point)),
{
    reveal(settle_tool);
    lemma_undrained(agent.queues.steering);
    lemma_undrained(agent.queues.follow_up);
    lemma_conclude(
        RunModel { slots: run.slots.update(i, slot), result: None, execution: None, ..run },
        agent,
        i,
        slot.result->0,
        point,
    );
}

proof fn lemma_sibling_flushed(run: RunModel, agent: AgentModel, i: int, cancelled: bool)
    ensures
        lawful(run, agent, sibling_flushed(run, agent, i, cancelled)),
{
    reveal(sibling_flushed);
    lemma_undrained(agent.queues.steering);
    lemma_undrained(agent.queues.follow_up);
    if let Some(execution) = run.execution {
        lemma_review(run, agent, i, execution, Point::PolledReview(i as usize), cancelled);
    }
    lemma_settle_tool(
        run,
        agent,
        i,
        SlotModel {
            result: Some(ToolResultModel::failed(run.calls[i].id, "Operation aborted"@)),
            terminate: false,
        },
        Point::PolledEnded,
    );
}

proof fn lemma_after_completion(run: RunModel, agent: AgentModel, i: int, cancelled: bool)
    ensures
        lawful(run, agent, after_completion(run, agent, i, cancelled)),
{
    reveal(after_completion);
    lemma_undrained(agent.queues.steering);
    lemma_undrained(agent.queues.follow_up);
    lemma_review(run, agent, i, run.execution->0, Point::Reviewing(i as usize), cancelled);
}

proof fn lemma_completed(run: RunModel, agent: AgentModel, index: usize, execution: Result<ToolResultModel, ToolErrorModel>, updates: Seq<PendingUpdateModel>, cancelled: bool)
    ensures
        lawful(run, agent, completed(run, agent, index, execution, updates, cancelled)),
{
    reveal(completed);
    lemma_undrained(agent.queues.steering);
    lemma_undrained(agent.queues.follow_up);
    let at = crate::transition::place(run.running, index);
    lemma_after_completion(
        RunModel {
            running: run.running.update(at, run.running.last()).drop_last(),
            execution: Some(execution),
            ..run
        },
        agent,
        index as int,
        cancelled,
    );
}

proof fn lemma_after_review(run: RunModel, agent: AgentModel, i: int, verdict: Result<AfterModel, Seq<char>>)
    ensures
        lawful(run, agent, after_review(run, agent, i, verdict)),
{
    reveal(after_review);
    lemma_undrained(agent.queues.steering);
    lemma_undrained(agent.queues.follow_up);
    let result = crate::transition::reviewed(run.calls[i], run.result->0, verdict);
    let slot = SlotModel {
        result: Some(result),
        terminate: crate::transition::asks_to_stop(result, verdict),
    };
    lemma_settle_tool(run, agent, i, slot, Point::Ended(i as usize));
}

proof fn lemma_after_append(run: RunModel, agent: AgentModel, i: int)
    ensures
        lawful(run, agent, after_append(run, agent, i)),
{
    reveal(after_append);
    lemma_undrained(agent.queues.steering);
    lemma_undrained(agent.queues.follow_up);
    lemma_append_slot(run, agent, i + 1);
    lemma_announce(
        RunModel { running: Seq::empty(), ..run },
        agent,
        i + 1,
        Point::Started((i + 1) as usize),
    );
    lemma_end_turn(run, agent);
}

proof fn lemma_turn_ended(run: RunModel, agent: AgentModel, cancelled: bool)
    ensures
        lawful(run, agent, turn_ended(run, agent, cancelled)),
{
    reveal(turn_ended);
    lemma_undrained(agent.queues.steering);
    lemma_undrained(agent.queues.follow_up);
    lemma_raise(run, agent, refused("agent"@, "not-running"@, "current_context"@), cancelled);
}

proof fn lemma_prepared(run: RunModel, agent: AgentModel, next_turn: crate::hooks::NextTurnModel)
    ensures
        lawful(run, agent, prepared(run, agent, next_turn)),
{
    reveal(prepared);
    lemma_undrained(agent.queues.steering);
    lemma_undrained(agent.queues.follow_up);
}

proof fn lemma_close(run: RunModel, agent: AgentModel)
    ensures
        lawful(run, agent, close(run, agent)),
{
    reveal(close);
    lemma_undrained(agent.queues.steering);
    lemma_undrained(agent.queues.follow_up);
}

proof fn lemma_after_drain(queue: QueueModel, mode: crate::queue::QueueMode)
    ensures
        drained(queue, queue.after_drain(mode)),
{
    let after = queue.after_drain(mode);
    assert(after.entries =~= queue.entries.skip(queue.entries.len() - after.entries.len()));
}

proof fn lemma_answered(run: RunModel, agent: AgentModel, stop: bool, cancelled: bool)
    ensures
        lawful(run, agent, answered(run, agent, stop, cancelled)),
{
    reveal(answered);
    lemma_undrained(agent.queues.steering);
    lemma_undrained(agent.queues.follow_up);
    let wants = crate::transition::wants_response(run);
    let next_agent = crate::transition::after_queued(agent, wants);
    lemma_after_drain(agent.queues.steering, agent.steering);
    lemma_after_drain(agent.queues.follow_up, agent.follow_up);
    lemma_close(run, agent);
    lemma_close(run, next_agent);
    let ended = close(run, next_agent).agent.queues;
    let next_run = RunModel {
        turn_id: crate::state::TurnId(crate::state::saturating_sum(run.turn_id.0, 1)),
        queued: crate::transition::next_queued(agent, wants),
        ..run
    };
    let error = refused("run"@, run.state.phase.spec_name(), "advance_turn"@);
    lemma_raise(next_run, next_agent, error, cancelled);
    let failed = raise(next_run, next_agent, error, cancelled).agent.queues;
    lemma_undrained(agent.queues.follow_up);
    assert(drained(agent.queues.follow_up, next_agent.queues.follow_up));
    lemma_drained_twice(agent.queues.steering, next_agent.queues.steering, ended.steering);
    lemma_drained_twice(agent.queues.follow_up, next_agent.queues.follow_up, ended.follow_up);
    lemma_drained_twice(agent.queues.steering, next_agent.queues.steering, failed.steering);
    lemma_drained_twice(agent.queues.follow_up, next_agent.queues.follow_up, failed.follow_up);
}

proof fn lemma_response_failed(run: RunModel, agent: AgentModel, cancelled: bool)
    ensures
        lawful(run, agent, response_failed(run, agent, cancelled)),
{
    reveal(response_failed);
    lemma_undrained(agent.queues.steering);
    lemma_undrained(agent.queues.follow_up);
}

proof fn lemma_closed(run: RunModel, agent: AgentModel)
    ensures
        lawful(run, agent, closed(run, agent)),
{
    reveal(closed);
    lemma_undrained(agent.queues.steering);
    lemma_undrained(agent.queues.follow_up);
}

proof fn lemma_resume(run: RunModel, agent: AgentModel, cancelled: bool)
    ensures
        lawful(run, agent, resume(run, agent, cancelled)),
{
    reveal(resume);
    lemma_undrained(agent.queues.steering);
    lemma_undrained(agent.queues.follow_up);
    match run.point {
        Point::Opening => lemma_opened(run, agent, cancelled),
        Point::Injecting => lemma_inject(run, agent, cancelled),
        Point::TurnStarted => lemma_inject(run, agent, cancelled),
        Point::AssistantPublished => lemma_account(run, agent, cancelled),
        Point::UsagePublished => lemma_after_response(run, agent, cancelled),
        Point::FailedEnd => lemma_response_failed(run, agent, cancelled),
        Point::TruncatedStarted(i) => lemma_conclude(
            run,
            agent,
            i as int,
            crate::transition::truncated_result(run.calls[i as int]),
            Point::TruncatedEnded(i),
        ),
        Point::TruncatedEnded(i) => lemma_append(
            run,
            agent,
            i as int,
            crate::transition::truncated_result(run.calls[i as int]),
            Point::TruncatedAppended(i),
        ),
        Point::TruncatedAppended(i) => {
            lemma_announce(run, agent, i + 1, Point::TruncatedStarted((i + 1) as usize));
            lemma_end_turn(RunModel { terminate: false, ..run }, agent);
        },
        Point::Started(i) => lemma_prepare(run, agent, i as int),
        Point::Refused(i) => lemma_after_refusal(run, agent, i as int),
        Point::Updated => lemma_after_updates(run, agent, cancelled),
        Point::PolledEnded => lemma_next_sibling(run, agent),
        Point::Completed(i) => lemma_after_completion(run, agent, i as int, cancelled),
        Point::Ended(i) => {
            lemma_after_tool(run, agent);
            lemma_append_slot(run, agent, i as int);
        },
        Point::Appended(i) => lemma_after_append(run, agent, i as int),
        Point::TurnEnded => lemma_turn_ended(run, agent, cancelled),
        Point::Closing => lemma_closed(run, agent),
        Point::Streaming | Point::FailedTurn | Point::PolledFlush(_) | Point::Flushing(_)
        | Point::ReviewedFlush(_) | Point::FailureTurn | Point::FailureEnd | Point::CancelTurn
        | Point::CancelEnd => {},
        _ => lemma_raise(run, agent, out_of_step(run), cancelled),
    }
}

/// Whatever the host answers, a step publishes exactly the event that it records, history only
/// grows, the setup of the agent is not touched, queues only lose messages from their front,
/// accounting grows by at most one turn, and the run gets at most one outcome, after which the
/// agent is at rest.
pub proof fn law_every_step_is_lawful(
    run: RunModel,
    agent: AgentModel,
    input: InputModel,
    cancelled: bool,
)
    ensures
        lawful(run, agent, next(run, agent, input, cancelled)),
{
    reveal(next);
    lemma_undrained(agent.queues.steering);
    lemma_undrained(agent.queues.follow_up);
    lemma_raise(run, agent, out_of_step(run), cancelled);
    match input {
        InputModel::Drive => {
            lemma_start(run, agent, cancelled);
            lemma_raise(
                run,
                agent,
                refused("run"@, run.state.phase.spec_name(), "start_turn"@),
                cancelled,
            );
        },
        InputModel::Published => lemma_resume(run, agent, cancelled),
        InputModel::Failed(error) => {
            lemma_resume(run, agent, cancelled);
            lemma_raise(run, agent, error, cancelled);
        },
        _ => {
            if run.outbox.len() == 0 {
                lemma_reply(run, agent, input, cancelled);
            }
        },
    }
}

#[verifier::spinoff_prover]
#[verifier::rlimit(60)]
proof fn lemma_reply(run: RunModel, agent: AgentModel, input: InputModel, cancelled: bool)
    requires
        run.outbox.len() == 0,
        !(input is Drive),
        !(input is Published),
        !(input is Failed),
    ensures
        lawful(run, agent, next(run, agent, input, cancelled)),
{
    reveal(next);
    lemma_undrained(agent.queues.steering);
    lemma_undrained(agent.queues.follow_up);
    lemma_raise(run, agent, out_of_step(run), cancelled);
    match (run.point, input) {
        (Point::Converting, InputModel::Converted(text)) => {
            lemma_connect(run, agent, text, cancelled);
        },
        (Point::Streaming, InputModel::Stream(Some(event))) => {
            lemma_streamed(run, agent, event, cancelled);
        },
        (Point::Streaming, InputModel::Stream(None)) => {
            lemma_stream_ended(run, agent, cancelled);
        },
        (Point::Validating(i), InputModel::Validated(verdict)) => {
            lemma_validated(run, agent, i as int, verdict, cancelled);
        },
        (Point::Deciding(i), InputModel::Before(decision)) => {
            lemma_decided(run, agent, i as int, decision, cancelled);
        },
        (Point::Running, InputModel::Updates(updates)) => {
            lemma_progressed(run, agent, updates, cancelled);
        },
        (Point::Running, InputModel::Completed { index, execution, updates }) => {
            lemma_completed(run, agent, index, execution, updates, cancelled);
        },
        (Point::PolledFlush(i), InputModel::Flushed(updates)) => {
            lemma_sibling_flushed(run, agent, i as int, cancelled);
        },
        (Point::PolledReview(i), InputModel::After(verdict)) => {
            let result = crate::transition::reviewed(run.calls[i as int], run.result->0, verdict);
            lemma_settle_tool(
                run,
                agent,
                i as int,
                SlotModel {
                    result: Some(result),
                    terminate: crate::transition::asks_to_stop(result, verdict),
                },
                Point::PolledEnded,
            );
        },
        (Point::Flushing(i), InputModel::Flushed(updates)) => {
            lemma_review(
                run,
                agent,
                i as int,
                run.execution->0,
                Point::Reviewing(i),
                cancelled,
            );
        },
        (Point::Reviewing(i), InputModel::After(verdict)) => {
            lemma_after_review(run, agent, i as int, verdict);
        },
        (Point::ReviewedFlush(i), InputModel::Flushed(updates)) => {
            lemma_conclude(
                run,
                agent,
                i as int,
                run.slots[i as int].result->0,
                Point::Ended(i),
            );
        },
        (Point::Preparing, InputModel::NextTurn(next_turn)) => {
            lemma_prepared(run, agent, next_turn);
        },
        (Point::Asking, InputModel::Stop(stop)) => {
            lemma_answered(run, agent, stop, cancelled);
        },
        _ => {},
    }
}

/// The events of a run carry its identifier and their place in the order of emission, before
/// and after every step.
pub proof fn law_events_stay_numbered(
    run: RunModel,
    agent: AgentModel,
    input: InputModel,
    cancelled: bool,
)
    requires
        run.state.numbered(),
    ensures
        next(run, agent, input, cancelled).run.state.numbered(),
{
    law_every_step_is_lawful(run, agent, input, cancelled);
}

/// The aggregate usage of an agent stays the sum of its recorded turns, and no recorded turn is
/// ever lost.
pub proof fn law_accounting_stays_balanced(
    run: RunModel,
    agent: AgentModel,
    input: InputModel,
    cancelled: bool,
)
    requires
        agent.state.accounting.balanced(),
    ensures
        ({
            let after = next(run, agent, input, cancelled).agent.state.accounting;
            after.balanced() && agent.state.accounting.turns.is_prefix_of(after.turns)
        }),
{
    law_every_step_is_lawful(run, agent, input, cancelled);
    let before = agent.state.accounting;
    let after = next(run, agent, input, cancelled).agent.state.accounting;
    if after != before {
        assert(after.turns.drop_last() =~= before.turns);
        assert(before.turns =~= after.turns.take(before.turns.len() as int));
    }
}

/// A step that reports an outcome is the step that settled the run, or the run was settled
/// before; either way the run has its outcome, and asking again never changes it.
pub proof fn law_an_outcome_is_final(
    run: RunModel,
    agent: AgentModel,
    input: InputModel,
    again: InputModel,
    cancelled: bool,
    later: bool,
)
    requires
        next(run, agent, input, cancelled).action is Done,
    ensures
        ({
            let first = next(run, agent, input, cancelled);
            let second = next(first.run, first.agent, again, later);
            &&& first.run.state.phase.terminal()
            &&& second.run.state.phase == first.run.state.phase
            &&& second.run.state.stop_reason == first.run.state.stop_reason
            &&& second.run.state.error == first.run.state.error
        }),
{
    let first = next(run, agent, input, cancelled);
    law_every_step_is_lawful(run, agent, input, cancelled);
    law_every_step_is_lawful(first.run, first.agent, again, later);
}

/// A call that the host did not allow does not execute: it gets an error result at once, and
/// the calls that will be started are not changed.
pub proof fn law_refused_calls_do_not_execute(
    run: RunModel,
    agent: AgentModel,
    i: usize,
    decision: Result<BeforeModel, Seq<char>>,
    cancelled: bool,
)
    requires
        run.point == Point::Deciding(i),
        run.outbox.len() == 0,
        i < run.slots.len(),
        decision != Ok::<BeforeModel, Seq<char>>(BeforeModel::Allow),
    ensures
        ({
            let step = next(run, agent, InputModel::Before(decision), cancelled);
            &&& step.run.running == run.running
            &&& step.run.slots[i as int].result matches Some(result) && result.is_error
                && result.tool_call_id == run.calls[i as int].id
            &&& step.action is Publish
            &&& !step.agent.state.pending_tool_calls.contains(run.calls[i as int].id)
        }),
{
    reveal(next);
    reveal(decided);
    reveal(refuse);
    reveal(conclude);
}

/// Calls of a sequential batch do not overlap: the decision on a call starts that call alone,
/// or none.
pub proof fn law_sequential_calls_do_not_overlap(
    run: RunModel,
    agent: AgentModel,
    i: usize,
    decision: Result<BeforeModel, Seq<char>>,
    cancelled: bool,
)
    requires
        run.wf(),
        run.point == Point::Deciding(i),
        run.outbox.len() == 0,
        !run.parallel,
    ensures
        next(run, agent, InputModel::Before(decision), cancelled).action matches
            ActionModel::StartTools(started) ==> started == seq![i],
{
    reveal(next);
    reveal(decided);
    reveal(refuse);
    reveal(conclude);
    assert(run.running.push(i) =~= seq![i]);
}

/// A batch stops the run only if every one of its calls asks for it: a call that does not keeps
/// the run going, whatever the others ask for.
pub proof fn law_stopping_is_unanimous(run: RunModel, agent: AgentModel, i: int)
    requires
        run.calls.len() > 0,
    ensures
        ({
            let step = append_slot(run, agent, i);
            &&& step.run.terminate == (run.terminate && run.slots[i].terminate)
            &&& !run.slots[i].terminate ==> wants_response(step.run)
            &&& wants_response(run) ==> wants_response(step.run)
        }),
{
    reveal(append_slot);
    reveal(append);
}

/// Cancellation is idempotent: asking a second time changes neither the run nor the agent.
pub proof fn law_abort_is_idempotent(run: RunModel, agent: AgentModel)
    ensures
        run.stopped().stopped() == run.stopped(),
        aborted(run.stopped(), aborted(run, agent)) == aborted(run, agent),
{
}

/// The results of a parallel batch enter the transcript in the order in which the model asked
/// for them, whatever the order of their completion.
pub proof fn law_results_follow_source_order(
    run: RunModel,
    agent: AgentModel,
    i: usize,
    cancelled: bool,
)
    requires
        run.point == Point::Appended(i),
        run.outbox.len() == 0,
        run.parallel,
        i + 1 < run.calls.len() <= usize::MAX,
    ensures
        ({
            let step = next(run, agent, InputModel::Published, cancelled);
            &&& step.run.point == Point::Appended((i + 1) as usize)
            &&& step.agent.state.messages == agent.state.messages.push(
                crate::transition::result_message(
                    crate::state::MessageId(agent.state.next_message_id),
                    run.calls[i + 1],
                    run.slots[i + 1].result->0,
                ),
            )
        }),
{
    reveal(next);
    reveal(resume);
    reveal(after_append);
    reveal(append_slot);
    reveal(append);
}

/// A call is announced with its exact arguments, and is pending from then on, before anything
/// else happens to it.
pub proof fn law_calls_are_announced_exactly(run: RunModel, agent: AgentModel, i: int, point: Point)
    requires
        0 <= i < run.calls.len(),
    ensures
        ({
            let step = announce(run, agent, i, point);
            &&& step.action matches ActionModel::Publish(event) && event.kind
                == (EventKindModel::ToolExecutionStart {
                tool_call_id: run.calls[i].id,
                tool_name: run.calls[i].name,
                arguments: run.calls[i].arguments,
            })
            &&& step.agent.state.pending_tool_calls.contains(run.calls[i].id)
            &&& step.run.point == point
        }),
{
    reveal(announce);
}

/// A run that was asked to stop before its first model request sends none: it begins to settle
/// as cancelled.
pub proof fn law_runs_cancelled_early_ask_no_model(run: RunModel, agent: AgentModel)
    requires
        owner(agent.state.phase) == Some(run.state.id),
        !run.state.phase.terminal(),
        run.turn_id == crate::state::TurnId(1),
    ensures
        ({
            let step = request_model(run, agent, true);
            &&& step.run.error == Some(CoreErrorModel::Cancelled)
            &&& step.run.point == Point::CancelTurn
            &&& step.action is Publish
        }),
{
    reveal(request_model);
    reveal(raise);
    reveal(settle_cancellation);
}

/// A run that was asked to stop in a later turn still asks the model, so that the provider meets
/// the cancelled signal: its request is that of a run nobody stopped.
pub proof fn law_runs_cancelled_late_ask_the_model(run: RunModel, agent: AgentModel)
    requires
        owner(agent.state.phase) == Some(run.state.id),
        run.turn_id != crate::state::TurnId(1),
    ensures
        request_model(run, agent, true) == request_model(run, agent, false),
        request_model(run, agent, true).action is TransformContext,
{
    reveal(request_model);
}

} // verus!
