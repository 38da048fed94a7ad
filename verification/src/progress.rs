//! What the steps of a run do with the last updates of a tool, and with what nobody asked for.

use crate::agent::{owner, AgentModel};
use crate::error::{CoreErrorModel, ToolErrorModel};
use crate::event::EventKindModel;
use crate::hooks::AfterModel;
use crate::tool::ToolResultModel;
use crate::transition::{
    after_completion, after_review, completed, next, next_sibling, raise, resume, review,
    settle_cancellation, settle_failure, ActionModel, InputModel, Next, PendingUpdateModel, Point,
    RunModel,
};
use vstd::prelude::*;

verus! {

/// Whether a step publishes these updates, in order, each under its call and its tool, and
/// nothing else.
pub open spec fn publishes_updates(step: Next, updates: Seq<PendingUpdateModel>) -> bool {
    &&& updates.len() > 0
    &&& step.action matches ActionModel::Publish(event)
    &&& event.kind == tells_update(updates[0])
    &&& step.run.outbox.len() == updates.len() - 1
    &&& forall|k: int|
        1 <= k < updates.len() ==> step.run.outbox[k - 1] == tells_update(#[trigger] updates[k])
}

/// The event that tells of an update.
pub open spec fn tells_update(update: PendingUpdateModel) -> EventKindModel {
    EventKindModel::ToolExecutionUpdate {
        tool_call_id: update.tool_call_id,
        tool_name: update.tool_name,
        update: update.update,
    }
}

/// The updates that a tool leaves when it returns are published before anything else is done with
/// its result, which waits meanwhile.
pub proof fn law_last_updates_come_before_the_result(
    run: RunModel,
    agent: AgentModel,
    index: usize,
    execution: Result<ToolResultModel, ToolErrorModel>,
    updates: Seq<PendingUpdateModel>,
    cancelled: bool,
)
    requires
        run.point == Point::Running,
        run.outbox.len() == 0,
        run.running.contains(index),
        updates.len() > 0,
    ensures
        ({
            let step = next(
                run,
                agent,
                InputModel::Completed { index, execution, updates },
                cancelled,
            );
            &&& publishes_updates(step, updates)
            &&& step.run.execution == Some(execution)
            &&& step.run.point == Point::Completed(index)
            &&& step.run.slots == run.slots
            &&& step.agent == agent
        }),
{
    reveal(next);
    reveal(completed);
}

/// Once they are published, the result of a parallel call goes to the host for review, and that of
/// a sequential one waits until no update is left.
pub proof fn law_results_wait_for_their_updates(
    run: RunModel,
    agent: AgentModel,
    i: usize,
    cancelled: bool,
)
    requires
        run.point == Point::Completed(i),
        run.outbox.len() == 0,
        run.execution is Some,
        i < run.calls.len(),
        owner(agent.state.phase) is Some,
    ensures
        ({
            let step = next(run, agent, InputModel::Published, cancelled);
            if run.parallel {
                &&& step.action matches ActionModel::AfterToolCall { call, result, .. }
                &&& call == run.calls[i as int]
                &&& result.tool_call_id == call.id
                &&& run.execution->0 matches Ok(returned) ==> (returned.tool_call_id == call.id
                    ==> result == returned)
                &&& step.run.result == Some(result)
            } else {
                &&& step.action is FlushUpdates
                &&& step.run.execution == run.execution
                &&& step.run.point == Point::Flushing(i)
            }
        }),
{
    reveal(next);
    reveal(resume);
    reveal(after_completion);
    reveal(review);
}

/// Updates that are flushed are published, and the run asks for more until none is left: neither
/// what a tool returned nor what was settled changes meanwhile.
pub proof fn law_flushed_updates_are_published(
    run: RunModel,
    agent: AgentModel,
    i: usize,
    updates: Seq<PendingUpdateModel>,
    cancelled: bool,
)
    requires
        run.outbox.len() == 0,
        updates.len() > 0,
        run.point == Point::PolledFlush(i) || run.point == Point::Flushing(i) || run.point
            == Point::ReviewedFlush(i),
    ensures
        ({
            let step = next(run, agent, InputModel::Flushed(updates), cancelled);
            let again = next(
                RunModel { outbox: Seq::empty(), ..step.run },
                agent,
                InputModel::Published,
                cancelled,
            );
            &&& publishes_updates(step, updates)
            &&& step.run.point == run.point
            &&& step.run.execution == run.execution
            &&& step.run.slots == run.slots
            &&& step.run.running == run.running
            &&& step.agent == agent
            &&& again.action is FlushUpdates
            &&& again.run.point == run.point
        }),
{
    reveal(next);
    reveal(resume);
}

/// The reviewed result of a parallel call is kept until its last updates are flushed.
pub proof fn law_reviewed_results_wait_for_their_updates(
    run: RunModel,
    agent: AgentModel,
    i: usize,
    verdict: Result<AfterModel, Seq<char>>,
    cancelled: bool,
)
    requires
        run.point == Point::Reviewing(i),
        run.outbox.len() == 0,
        run.parallel,
        i < run.slots.len(),
        run.result is Some,
    ensures
        ({
            let step = next(run, agent, InputModel::After(verdict), cancelled);
            &&& step.action is FlushUpdates
            &&& step.run.point == Point::ReviewedFlush(i)
            &&& step.run.slots[i as int].result is Some
            &&& step.run.running == run.running
            &&& step.agent == agent
        }),
{
    reveal(next);
    reveal(after_review);
}

/// Siblings that wait to be polled are polled one after another, in order.
pub proof fn law_siblings_are_polled_in_order(run: RunModel, agent: AgentModel, cancelled: bool)
    requires
        run.point == Point::PolledEnded,
        run.outbox.len() == 0,
        run.siblings.len() > 0,
    ensures
        ({
            let step = next(run, agent, InputModel::Published, cancelled);
            &&& step.action == ActionModel::PollOnce(run.siblings[0])
            &&& step.run.siblings == run.siblings.skip(1)
            &&& step.run.point == Point::Polling(run.siblings[0])
            &&& step.run.slots == run.slots
            &&& step.run.running == run.running
        }),
{
    reveal(next);
    reveal(resume);
    reveal(next_sibling);
}

/// An answer that nobody asked for fails the run: while an event waits to be published, only its
/// publication goes on, and a run that waits for its provider, its tools or its host does not go
/// on by a publication.
pub proof fn law_unasked_answers_fail_the_run(
    run: RunModel,
    agent: AgentModel,
    input: InputModel,
    cancelled: bool,
)
    requires
        !run.state.phase.terminal(),
        run.outbox.len() > 0 && !(input is Published) && !(input is Drive) && !(input is Failed)
            || run.outbox.len() == 0 && input is Published && (run.point == Point::Transforming
            || run.point == Point::Converting || run.point == Point::Connecting || run.point
            == Point::Launching || run.point == Point::Running || run.point == Point::Preparing
            || run.point == Point::Asking) || input is Drive && run.point != Point::Created,
    ensures
        ({
            let step = next(run, agent, input, cancelled);
            &&& step.run.error matches Some(CoreErrorModel::InvalidTransition(error))
            &&& error.entity == "run"@
            &&& step.run.point == if cancelled {
                Point::CancelTurn
            } else {
                Point::FailureTurn
            }
        }),
{
    reveal(next);
    reveal(raise);
    reveal(settle_failure);
    reveal(settle_cancellation);
}

} // verus!
