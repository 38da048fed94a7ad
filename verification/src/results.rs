//! What the steps of a run do with what tools emit and return: how a result comes to the
//! transcript.

use crate::agent::{owner, AgentModel};
use crate::conduct::{announces, succeeding};
use crate::error::ToolErrorModel;
use crate::event::EventKindModel;
use crate::hooks::{AfterModel, Replacement};
use crate::state::{CallModel, MessageId, MessageModel};
use crate::tool::ToolResultModel;
use crate::transition::{
    after_append, after_completion, after_refusal, after_review, after_tool, after_updates,
    announce, announce_or_launch, append, append_slot, completed, conclude, end_turn, kept, next,
    next_sibling, place, progressed, resume, review, settle_tool, sibling_flushed, update_calls,
    ActionModel, InputModel, Next, PendingUpdateModel, Point, RunModel,
};
use vstd::prelude::*;

verus! {

/// Updates are published as their tools emitted them, in order, each under its call and its tool,
/// and none is added.
pub proof fn law_updates_are_published_as_emitted(
    run: RunModel,
    agent: AgentModel,
    updates: Seq<PendingUpdateModel>,
    k: int,
    cancelled: bool,
)
    requires
        run.point == Point::Running,
        run.outbox.len() == 0,
        0 <= k < updates.len(),
    ensures
        ({
            let step = next(run, agent, InputModel::Updates(updates), cancelled);
            let kind = EventKindModel::ToolExecutionUpdate {
                tool_call_id: updates[k].tool_call_id,
                tool_name: updates[k].tool_name,
                update: updates[k].update,
            };
            &&& step.run.outbox.len() == updates.len() - 1
            &&& k == 0 ==> (step.action matches ActionModel::Publish(event) && event.kind == kind)
            &&& k > 0 ==> step.run.outbox[k - 1] == kind
            &&& step.run.running == run.running
            &&& step.run.slots == run.slots
            &&& step.agent == agent
        }),
{
    reveal(next);
    reveal(progressed);
}

/// What a tool returned reaches the review of the host unchanged, as the result of its own call.
/// A result under another identifier, and a failure, become an error result of the call.
pub proof fn law_returned_results_are_reviewed(
    run: RunModel,
    agent: AgentModel,
    i: usize,
    execution: Result<ToolResultModel, ToolErrorModel>,
    cancelled: bool,
)
    requires
        run.outbox.len() == 0,
        i < run.calls.len(),
        owner(agent.state.phase) is Some,
        run.point == Point::Running && run.parallel && run.running.contains(i)
            || run.point == Point::Flushing(i) && run.execution == Some(execution)
            || run.point == Point::PolledFlush(i) && run.execution == Some(execution),
    ensures
        ({
            let step = if run.point == Point::Running {
                next(
                    run,
                    agent,
                    InputModel::Completed { index: i, execution, updates: Seq::empty() },
                    cancelled,
                )
            } else {
                next(run, agent, InputModel::Flushed(Seq::empty()), cancelled)
            };
            &&& step.action matches ActionModel::AfterToolCall { call, result, context }
            &&& call == run.calls[i as int]
            &&& context.messages == agent.state.messages
            &&& context.host_messages == agent.state.host_messages
            &&& result.tool_call_id == call.id
            &&& step.run.result == Some(result)
            &&& match execution {
                Ok(returned) => if returned.tool_call_id == call.id {
                    result == returned
                } else {
                    result.is_error
                },
                Err(error) => {
                    &&& result.is_error
                    &&& error matches ToolErrorModel::Execution { message, .. } ==> result.content
                        == message
                    &&& error matches ToolErrorModel::Blocked { reason, .. } ==> result.content
                        == reason
                    &&& error matches ToolErrorModel::InvalidArguments { message, .. }
                        ==> result.content == message
                },
            }
        }),
{
    reveal(next);
    reveal(completed);
    reveal(after_completion);
    reveal(review);
    reveal(sibling_flushed);
}

/// A tool that returned executes no longer, and every other one still does.
pub proof fn law_a_returned_tool_no_longer_executes(
    run: RunModel,
    agent: AgentModel,
    index: usize,
    other: usize,
    execution: Result<ToolResultModel, ToolErrorModel>,
    updates: Seq<PendingUpdateModel>,
)
    requires
        run.point == Point::Running,
        run.outbox.len() == 0,
        run.running.contains(index),
        run.running.no_duplicates(),
        owner(agent.state.phase) is Some,
    ensures
        ({
            let step = next(
                run,
                agent,
                InputModel::Completed { index, execution, updates },
                false,
            );
            &&& !step.run.running.contains(index)
            &&& other != index ==> (step.run.running.contains(other) <==> run.running.contains(
                other,
            ))
        }),
{
    reveal(next);
    reveal(completed);
    reveal(after_completion);
    reveal(review);
    lemma_place(run.running, index);
    let at = place(run.running, index);
    let n = run.running.len();
    let after = run.running.update(at, run.running.last()).drop_last();
    if after.contains(index) {
        let k = choose|k: int| 0 <= k < after.len() && after[k] == index;
        let source = if k == at { n - 1 } else { k };
        assert(after[k] == run.running[source]);
        assert(source != at);
    }
    if other != index && run.running.contains(other) {
        let k = choose|k: int| 0 <= k < n && run.running[k] == other;
        let target = if k == n - 1 { at } else { k };
        assert(after[target] == other);
    }
    if after.contains(other) {
        let k = choose|k: int| 0 <= k < after.len() && after[k] == other;
        let source = if k == at { n - 1 } else { k };
        assert(run.running[source] == other);
    }
    let step = next(run, agent, InputModel::Completed { index, execution, updates }, false);
    assert(step.run.running == after);
}

proof fn lemma_place(s: Seq<usize>, x: usize)
    requires
        s.contains(x),
    ensures
        0 <= place(s, x) < s.len(),
        s[place(s, x)] == x,
    decreases s.len(),
{
    if s[0] != x {
        let k = choose|k: int| 0 <= k < s.len() && s[k] == x;
        assert(s.drop_first()[k - 1] == x);
        lemma_place(s.drop_first(), x);
    }
}

/// The review of the host: a field that it replaces is replaced, and every other field stays as
/// the tool returned it. Where the review fails, the result is an error with its text. The call
/// asks to stop exactly as the reviewed result does, and a failed review never does.
pub proof fn law_reviews_replace_only_what_they_name(
    run: RunModel,
    agent: AgentModel,
    i: usize,
    review: Result<AfterModel, Seq<char>>,
    cancelled: bool,
)
    requires
        run.point == Point::Reviewing(i) || run.point == Point::PolledReview(i),
        run.outbox.len() == 0,
        i < run.calls.len(),
        i < run.slots.len(),
        run.result is Some,
    ensures
        ({
            let step = next(run, agent, InputModel::After(review), cancelled);
            let before = run.result->0;
            &&& step.run.slots[i as int].result matches Some(after)
            &&& match review {
                Err(text) => {
                    &&& after.is_error
                    &&& after.content == text
                    &&& after.tool_call_id == run.calls[i as int].id
                    &&& !step.run.slots[i as int].terminate
                },
                Ok(changes) => {
                    &&& after.tool_call_id == before.tool_call_id
                    &&& changes.content is Keep ==> after.content == before.content
                    &&& changes.content matches Replacement::Replace(content) ==> after.content
                        == content
                    &&& changes.details is Keep ==> after.details == before.details
                    &&& changes.details matches Replacement::Replace(details) ==> after.details
                        == details
                    &&& changes.is_error is Keep ==> after.is_error == before.is_error
                    &&& changes.is_error matches Replacement::Replace(is_error) ==> after.is_error
                        == is_error
                    &&& changes.usage is Keep ==> after.usage == before.usage
                    &&& changes.usage matches Replacement::Replace(usage) ==> after.usage == Some(
                        usage,
                    )
                    &&& changes.added_tool_names is Keep ==> after.added_tool_names
                        == before.added_tool_names
                    &&& changes.added_tool_names matches Replacement::Replace(names)
                        ==> after.added_tool_names == names
                    &&& changes.terminate is None ==> after.terminate == before.terminate
                    &&& changes.terminate matches Some(terminate) ==> after.terminate == terminate
                    &&& step.run.slots[i as int].terminate == after.terminate
                },
            }
            &&& forall|j: int|
                0 <= j < run.slots.len() && j != i ==> #[trigger] step.run.slots[j] == run.slots[j]
        }),
{
    reveal(next);
    reveal(after_review);
    reveal(settle_tool);
    reveal(conclude);
}

/// The settled result of a call is published as the end of that call, and the call is no longer
/// pending.
pub proof fn law_settled_results_are_published(
    run: RunModel,
    agent: AgentModel,
    i: usize,
    review: Result<AfterModel, Seq<char>>,
    cancelled: bool,
)
    requires
        run.outbox.len() == 0,
        i < run.calls.len(),
        i < run.slots.len(),
        run.point == Point::PolledReview(i) && run.result is Some || run.point == Point::Reviewing(
            i,
        ) && !run.parallel && run.result is Some || run.point == Point::ReviewedFlush(i)
            && run.slots[i as int].result is Some,
    ensures
        ({
            let step = if run.point == Point::ReviewedFlush(i) {
                next(run, agent, InputModel::Flushed(Seq::empty()), cancelled)
            } else {
                next(run, agent, InputModel::After(review), cancelled)
            };
            &&& step.run.slots[i as int].result matches Some(result)
            &&& run.point == Point::ReviewedFlush(i) ==> step.run.slots == run.slots
            &&& announces(
                step,
                seq![
                    EventKindModel::ToolExecutionEnd {
                        tool_call_id: run.calls[i as int].id,
                        tool_name: run.calls[i as int].name,
                        result,
                    },
                ],
            )
            &&& !step.agent.state.pending_tool_calls.contains(run.calls[i as int].id)
            &&& step.agent.state.messages == agent.state.messages
        }),
{
    reveal(next);
    reveal(after_review);
    reveal(settle_tool);
    reveal(conclude);
    let step = if run.point == Point::ReviewedFlush(i) {
        next(run, agent, InputModel::Flushed(Seq::empty()), cancelled)
    } else {
        next(run, agent, InputModel::After(review), cancelled)
    };
    assert(step.run.outbox =~= seq![
        EventKindModel::ToolExecutionEnd {
            tool_call_id: run.calls[i as int].id,
            tool_name: run.calls[i as int].name,
            result: step.run.slots[i as int].result->0,
        },
    ].skip(1));
}

/// Whether a step appended the result of a call to the transcript, and nothing else, and
/// publishes it as a complete message.
pub open spec fn appends_result(
    agent: AgentModel,
    step: Next,
    call: CallModel,
    result: ToolResultModel,
) -> bool {
    let message = MessageModel::ToolResult {
        id: MessageId(agent.state.next_message_id),
        tool_call_id: call.id,
        tool_name: call.name,
        content: result.content,
        details: result.details,
        usage: result.usage,
        added_tool_names: result.added_tool_names,
        is_error: result.is_error,
    };
    &&& step.agent.state.messages == agent.state.messages.push(message)
    &&& step.agent.state.next_message_id == succeeding(agent.state.next_message_id)
    &&& announces(
        step,
        seq![EventKindModel::MessageStart { message }, EventKindModel::MessageEnd { message }],
    )
}

/// The settled result of each call enters the transcript under the call's own identifier and
/// name, with every field of the result: for a sequential batch as soon as its call is published,
/// for a parallel one once all are settled, in the order of the calls. A batch ends the turn only
/// after its last call, and asks to stop only if all its calls do.
pub proof fn law_results_enter_the_transcript(
    run: RunModel,
    agent: AgentModel,
    i: usize,
    cancelled: bool,
)
    requires
        run.outbox.len() == 0,
        i < run.calls.len() <= usize::MAX,
        run.slots.len() == run.calls.len(),
    ensures
        ({
            let step = next(run, agent, InputModel::Published, cancelled);
            &&& (run.point == Point::Ended(i) || run.point == Point::Refused(i)) && !run.parallel
                && run.slots[i as int].result is Some ==> {
                &&& appends_result(
                    agent,
                    step,
                    run.calls[i as int],
                    run.slots[i as int].result->0,
                )
                &&& step.run.point == Point::Appended(i)
                &&& step.run.terminate == (run.terminate && run.slots[i as int].terminate)
            }
            &&& run.point == Point::Ended(i) && run.parallel && run.running.len() == 0
                && run.slots[0].result is Some ==> {
                &&& appends_result(agent, step, run.calls[0], run.slots[0].result->0)
                &&& step.run.point == Point::Appended(0)
                &&& step.run.terminate == (run.terminate && run.slots[0].terminate)
            }
            &&& run.point == Point::Ended(i) && run.parallel && run.running.len() > 0
                ==> step.action is AwaitTools
            &&& run.point == Point::Appended(i) && run.parallel && i + 1 < run.calls.len()
                && run.slots[i + 1].result is Some ==> {
                &&& appends_result(
                    agent,
                    step,
                    run.calls[i + 1],
                    run.slots[i + 1].result->0,
                )
                &&& step.run.point == Point::Appended((i + 1) as usize)
                &&& step.run.terminate == (run.terminate && run.slots[i + 1].terminate)
            }
            &&& run.point == Point::Appended(i) && !run.parallel && i + 1 < run.calls.len() ==> {
                &&& step.run.point == Point::Started((i + 1) as usize)
                &&& step.run.running.len() == 0
                &&& step.action matches ActionModel::Publish(event) && event.kind
                    == (EventKindModel::ToolExecutionStart {
                    tool_call_id: run.calls[i + 1].id,
                    tool_name: run.calls[i + 1].name,
                    arguments: run.calls[i + 1].arguments,
                })
            }
            &&& run.point == Point::Appended(i) && i + 1 == run.calls.len() ==> {
                &&& announces(
                    step,
                    seq![EventKindModel::TurnEnd { turn_id: run.turn_id, reason: run.reason }],
                )
                &&& step.run.point == Point::TurnEnded
                &&& step.run.terminate == run.terminate
            }
        }),
{
    reveal(next);
    reveal(resume);
    reveal(after_refusal);
    reveal(after_append);
    reveal(after_tool);
    reveal(append_slot);
    reveal(append);
    reveal(announce);
    reveal(end_turn);
    let step = next(run, agent, InputModel::Published, cancelled);
    if run.point == Point::Appended(i) && i + 1 == run.calls.len() {
        assert(step.run.outbox =~= seq![
            EventKindModel::TurnEnd { turn_id: run.turn_id, reason: run.reason },
        ].skip(1));
    }
}

/// A call of a parallel batch that does not execute is followed by the announcement of the next
/// one; once all are announced, those that were allowed are started together, or where none was
/// the results are appended.
pub proof fn law_a_parallel_batch_is_announced_then_started(
    run: RunModel,
    agent: AgentModel,
    i: usize,
    cancelled: bool,
)
    requires
        run.point == Point::Refused(i),
        run.outbox.len() == 0,
        run.parallel,
        i < run.calls.len() <= usize::MAX,
    ensures
        ({
            let step = next(run, agent, InputModel::Published, cancelled);
            if i + 1 < run.calls.len() {
                &&& step.run.point == Point::Started((i + 1) as usize)
                &&& step.action matches ActionModel::Publish(event) && event.kind
                    == (EventKindModel::ToolExecutionStart {
                    tool_call_id: run.calls[i + 1].id,
                    tool_name: run.calls[i + 1].name,
                    arguments: run.calls[i + 1].arguments,
                })
            } else if run.running.len() > 0 {
                step.action == ActionModel::StartTools(run.running)
            } else {
                step.run.point == Point::Appended(0)
            }
        }),
{
    reveal(next);
    reveal(resume);
    reveal(after_refusal);
    reveal(announce_or_launch);
    reveal(announce);
    reveal(append_slot);
    reveal(append);
}

proof fn lemma_kept(run: RunModel, indices: Seq<usize>, reporting: bool, index: usize)
    ensures
        kept(run, indices, reporting).contains(index) <==> indices.contains(index)
            && run.updated.contains(run.calls[index as int].id) == reporting,
    decreases indices.len(),
{
    if indices.len() > 0 {
        lemma_kept(run, indices.drop_last(), reporting, index);
        let rest = kept(run, indices.drop_last(), reporting);
        let all = kept(run, indices, reporting);
        let last = indices.last();
        assert(indices =~= indices.drop_last().push(last));
        assert(indices.contains(index) <==> indices.drop_last().contains(index) || index
            == last) by {
            if indices.contains(index) {
                let k = choose|k: int| 0 <= k < indices.len() && indices[k] == index;
                if k < indices.len() - 1 {
                    assert(indices.drop_last()[k] == index);
                }
            }
            if indices.drop_last().contains(index) {
                let k = choose|k: int|
                    0 <= k < indices.drop_last().len() && indices.drop_last()[k] == index;
                assert(indices[k] == index);
            }
            if index == last {
                assert(indices[indices.len() - 1] == index);
            }
        }
        assert(rest.push(last).contains(index) <==> rest.contains(index) || index == last) by {
            if rest.push(last).contains(index) {
                let k = choose|k: int|
                    0 <= k < rest.push(last).len() && rest.push(last)[k] == index;
                if k < rest.len() {
                    assert(rest[k] == index);
                }
            }
            if rest.contains(index) {
                let k = choose|k: int| 0 <= k < rest.len() && rest[k] == index;
                assert(rest.push(last)[k] == index);
            }
            if index == last {
                assert(rest.push(last)[rest.len() as int] == index);
            }
        }
    }
}

/// When a parallel batch is cancelled during its updates, the tools whose updates were just
/// published keep executing, and every other one, if there is any, is polled once. Without a cancellation, or in a
/// sequential batch, all of them keep executing.
pub proof fn law_cancelled_siblings_are_polled(
    run: RunModel,
    agent: AgentModel,
    index: usize,
    quiet: usize,
    cancelled: bool,
)
    requires
        run.point == Point::Updated,
        run.outbox.len() == 0,
        run.running.contains(index),
        run.running.contains(quiet),
        !run.updated.contains(run.calls[quiet as int].id),
    ensures
        ({
            let step = next(run, agent, InputModel::Published, cancelled);
            let reported = run.updated.contains(run.calls[index as int].id);
            if run.parallel && cancelled {
                &&& step.action matches ActionModel::PollOnce(polled)
                &&& step.run.running.contains(index) <==> reported
                &&& polled == index || step.run.siblings.contains(index) <==> !reported
            } else {
                &&& step.action is AwaitTools
                &&& step.run.running == run.running
            }
        }),
{
    reveal(next);
    reveal(resume);
    reveal(after_updates);
    reveal(next_sibling);
    if run.parallel && cancelled {
        lemma_kept(run, run.running, true, index);
        lemma_kept(run, run.running, false, index);
        lemma_kept(run, run.running, false, quiet);
        let others = kept(run, run.running, false);
        assert(others.contains(quiet));
        assert(others.len() > 0);
        assert(others.contains(index) <==> others[0] == index || others.skip(1).contains(
            index,
        )) by {
            if others.contains(index) {
                let m = choose|m: int| 0 <= m < others.len() && others[m] == index;
                if m > 0 {
                    assert(others.skip(1)[m - 1] == index);
                }
            }
            if others.skip(1).contains(index) {
                let m = choose|m: int|
                    0 <= m < others.skip(1).len() && others.skip(1)[m] == index;
                assert(others[m + 1] == index);
            }
        }
    }
}

/// The calls whose updates were published last are those of the updates that came in.
pub proof fn law_updates_name_their_calls(
    run: RunModel,
    agent: AgentModel,
    updates: Seq<PendingUpdateModel>,
    id: Seq<char>,
    cancelled: bool,
)
    requires
        run.point == Point::Running,
        run.outbox.len() == 0,
        updates.len() > 0,
    ensures
        next(run, agent, InputModel::Updates(updates), cancelled).run.updated.contains(id)
            <==> exists|k: int|
            0 <= k < updates.len() && (#[trigger] updates[k]).tool_call_id == id,
{
    reveal(next);
    reveal(progressed);
    let names = update_calls(updates);
    if names.contains(id) {
        let k = choose|k: int| 0 <= k < names.len() && names[k] == id;
        assert(updates[k].tool_call_id == id);
    }
    if exists|k: int| 0 <= k < updates.len() && (#[trigger] updates[k]).tool_call_id == id {
        let k = choose|k: int|
            0 <= k < updates.len() && (#[trigger] updates[k]).tool_call_id == id;
        assert(names[k] == id);
    }
}

/// A polled sibling that had already returned is reviewed like any other; one that had not is
/// settled as aborted.
pub proof fn law_unfinished_siblings_are_aborted(
    run: RunModel,
    agent: AgentModel,
    i: usize,
    execution: Option<Result<ToolResultModel, ToolErrorModel>>,
    cancelled: bool,
)
    requires
        run.outbox.len() == 0,
        i < run.calls.len(),
        i < run.slots.len(),
    ensures
        run.point == Point::Polling(i) ==> ({
            let step = next(run, agent, InputModel::Polled(execution), cancelled);
            step.run.execution == execution && step.action is FlushUpdates && step.run.point
                == Point::PolledFlush(i)
        }),
        run.point == Point::PolledFlush(i) && run.execution is None ==> ({
            let step = next(run, agent, InputModel::Flushed(Seq::empty()), cancelled);
            &&& step.run.slots[i as int].result matches Some(result)
            &&& result.is_error
            &&& result.tool_call_id == run.calls[i as int].id
            &&& result.content == "Operation aborted"@
            &&& !step.run.slots[i as int].terminate
            &&& step.action matches ActionModel::Publish(event) && event.kind
                == (EventKindModel::ToolExecutionEnd {
                tool_call_id: run.calls[i as int].id,
                tool_name: run.calls[i as int].name,
                result,
            })
        }),
{
    reveal(next);
    reveal(sibling_flushed);
    reveal(settle_tool);
    reveal(conclude);
}

} // verus!
