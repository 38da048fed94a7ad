//! Tools that must run alone, over the whole course of a run.

use crate::agent::AgentModel;
use crate::batches::{lemma_meets, meets_a_sequential_tool, names_a_sequential_tool};
use crate::error::CoreErrorModel;
use crate::lifecycle::{in_batch, law_every_step_is_lawful, wants_order};
use crate::tool::{distinct_names, ToolResultModel};
use crate::transition::{
    account, after_response, announce, answered, append, close, closed, conclude, connect, decided,
    end_turn, inject, next, opened, prepared, raise, refuse, request_model, response_failed, resume,
    settle_cancellation, settle_failure, start, stream_ended, streamed, truncated_result, turn_ended,
    ActionModel, InputModel, Point, RunModel,
};
use vstd::prelude::*;

verus! {

/// Whether the batch of a run is in order: where it executes in parallel, none of its calls names
/// a tool that must run alone.
pub open spec fn batch_in_order(run: RunModel, agent: AgentModel) -> bool {
    in_batch(run.point) && run.parallel ==> !names_a_sequential_tool(run.calls, agent.tools)
}

proof fn lemma_raised()
    ensures
        forall|run: RunModel, agent: AgentModel, error: CoreErrorModel, cancelled: bool|
            {
                let step = #[trigger] raise(run, agent, error, cancelled);
                !in_batch(step.run.point) && !(step.action is StartTools)
            },
{
    assert forall|run: RunModel, agent: AgentModel, error: CoreErrorModel, cancelled: bool| {
        let step = #[trigger] raise(run, agent, error, cancelled);
        !in_batch(step.run.point) && !(step.action is StartTools)
    } by {
        reveal(raise);
        reveal(settle_failure);
        reveal(settle_cancellation);
    }
}

proof fn lemma_requested()
    ensures
        forall|run: RunModel, agent: AgentModel, cancelled: bool|
            !in_batch((#[trigger] inject(run, agent, cancelled)).run.point),
        forall|run: RunModel, agent: AgentModel, cancelled: bool|
            !in_batch((#[trigger] request_model(run, agent, cancelled)).run.point),
{
    lemma_raised();
    assert forall|run: RunModel, agent: AgentModel, cancelled: bool| !in_batch(
        (#[trigger] request_model(run, agent, cancelled)).run.point,
    ) by {
        reveal(request_model);
    }
    assert forall|run: RunModel, agent: AgentModel, cancelled: bool| !in_batch(
        (#[trigger] inject(run, agent, cancelled)).run.point,
    ) by {
        reveal(inject);
    }
}

proof fn lemma_responded(run: RunModel, agent: AgentModel, cancelled: bool)
    ensures
        ({
            let step = after_response(run, agent, cancelled);
            !in_batch(step.run.point) || step.run.point == Point::Started(0)
        }),
{
    lemma_raised();
    reveal(after_response);
    reveal(announce);
    reveal(end_turn);
}

proof fn lemma_opened_outside(run: RunModel, agent: AgentModel, cancelled: bool)
    ensures
        !in_batch(opened(run, agent, cancelled).run.point),
{
    lemma_raised();
    lemma_requested();
    reveal(opened);
}

proof fn lemma_accounted(run: RunModel, agent: AgentModel, cancelled: bool)
    ensures
        ({
            let step = account(run, agent, cancelled);
            !in_batch(step.run.point) || step.run.point == Point::Started(0)
        }),
{
    lemma_responded(run, agent, cancelled);
    reveal(account);
}

proof fn lemma_closed_outside(run: RunModel, agent: AgentModel, cancelled: bool)
    ensures
        !in_batch(response_failed(run, agent, cancelled).run.point),
        !in_batch(closed(run, agent).run.point),
        !in_batch(turn_ended(run, agent, cancelled).run.point),
{
    lemma_raised();
    reveal(response_failed);
    reveal(closed);
    reveal(turn_ended);
}

proof fn lemma_truncated_outside(run: RunModel, agent: AgentModel, i: int, result: ToolResultModel)
    ensures
        forall|point: Point| (#[trigger] conclude(run, agent, i, result, point)).run.point == point,
        forall|point: Point| (#[trigger] append(run, agent, i, result, point)).run.point == point,
        forall|j: int, point: Point|
            (#[trigger] announce(run, agent, j, point)).run.point == point,
        !in_batch(end_turn(RunModel { terminate: false, ..run }, agent).run.point),
{
    reveal(conclude);
    reveal(append);
    reveal(announce);
    reveal(end_turn);
}

/// A batch is entered at its start alone.
proof fn lemma_resumed(run: RunModel, agent: AgentModel, cancelled: bool)
    requires
        !in_batch(run.point),
    ensures
        ({
            let step = resume(run, agent, cancelled);
            !in_batch(step.run.point) || step.run.point == Point::Started(0) && (run.point
                == Point::AssistantPublished || run.point == Point::UsagePublished)
        }),
{
    reveal(resume);
    match run.point {
        Point::Opening => lemma_opened_outside(run, agent, cancelled),
        Point::Injecting | Point::TurnStarted => lemma_requested(),
        Point::AssistantPublished => lemma_accounted(run, agent, cancelled),
        Point::UsagePublished => lemma_responded(run, agent, cancelled),
        Point::FailedEnd | Point::TurnEnded | Point::Closing => {
            lemma_closed_outside(run, agent, cancelled)
        },
        Point::TruncatedStarted(i) | Point::TruncatedEnded(i) | Point::TruncatedAppended(i) => {
            lemma_truncated_outside(
                run,
                agent,
                i as int,
                truncated_result(run.calls[i as int]),
            )
        },
        _ => lemma_raised(),
    }
}

proof fn lemma_entered(run: RunModel, agent: AgentModel, input: InputModel, cancelled: bool)
    requires
        !in_batch(run.point),
    ensures
        ({
            let step = next(run, agent, input, cancelled);
            in_batch(step.run.point) ==> {
                &&& step == resume(run, agent, cancelled)
                &&& run.point == Point::AssistantPublished || run.point == Point::UsagePublished
            }
        }),
{
    lemma_raised();
    lemma_resumed(run, agent, cancelled);
    reveal(next);
    reveal(start);
    reveal(connect);
    reveal(streamed);
    reveal(stream_ended);
    reveal(prepared);
    reveal(answered);
    reveal(close);
}

proof fn lemma_started(run: RunModel, agent: AgentModel, cancelled: bool)
    requires
        run.point == Point::AssistantPublished || run.point == Point::UsagePublished,
    ensures
        ({
            let step = resume(run, agent, cancelled);
            in_batch(step.run.point) ==> step.run.parallel == !names_a_sequential_tool(
                step.run.calls,
                agent.tools,
            )
        }),
{
    lemma_raised();
    reveal(resume);
    reveal(account);
    reveal(after_response);
    reveal(announce);
    reveal(end_turn);
    crate::batches::lemma_sequence_wanted(run, agent);
}

/// Whatever the host answers, a batch that is in order stays in order until it ends, and the next
/// one starts in order: a run in which nothing has started yet never gets out of it.
pub proof fn law_batches_stay_in_order(
    run: RunModel,
    agent: AgentModel,
    input: InputModel,
    cancelled: bool,
)
    requires
        batch_in_order(run, agent),
    ensures
        batch_in_order(
            next(run, agent, input, cancelled).run,
            next(run, agent, input, cancelled).agent,
        ),
{
    law_every_step_is_lawful(run, agent, input, cancelled);
    let step = next(run, agent, input, cancelled);
    reveal(wants_order);
    if !in_batch(run.point) {
        lemma_entered(run, agent, input, cancelled);
        if in_batch(step.run.point) {
            lemma_started(run, agent, cancelled);
        }
    }
}

/// Where any call of a batch, wherever it stands, names a tool that must run alone, the host is
/// never asked to start more than one tool at a time. What it is asked to start are calls of the
/// batch.
pub proof fn law_sequential_tools_start_alone(
    run: RunModel,
    agent: AgentModel,
    input: InputModel,
    cancelled: bool,
    started: Seq<usize>,
)
    requires
        run.wf(),
        batch_in_order(run, agent),
        next(run, agent, input, cancelled).action == ActionModel::StartTools(started),
    ensures
        started.len() > 1 ==> !names_a_sequential_tool(run.calls, agent.tools),
        started.len() > 1 && distinct_names(agent.tools) ==> !meets_a_sequential_tool(
            run.calls,
            agent.tools,
        ),
{
    law_every_step_is_lawful(run, agent, input, cancelled);
    if !run.parallel {
        lemma_one_started(run, agent, input, cancelled);
    }
    if distinct_names(agent.tools) {
        lemma_meets(run.calls, agent.tools);
    }
}

proof fn lemma_one_started(run: RunModel, agent: AgentModel, input: InputModel, cancelled: bool)
    requires
        run.wf(),
        !run.parallel,
        run.point is Deciding,
    ensures
        next(run, agent, input, cancelled).action matches ActionModel::StartTools(started)
            ==> started.len() == 1,
{
    lemma_raised();
    reveal(next);
    reveal(decided);
    reveal(refuse);
    reveal(conclude);
    reveal(resume);
}

} // verus!
