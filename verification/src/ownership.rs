//! What callers rely on between runs: what starting, continuing, resetting and stopping do to an
//! agent, what a queue keeps, and how usage adds up.

use crate::agent::{
    after_abort, after_reset, after_tail, contents, prompts, started, tail_messages, upcoming_run,
    AgentModel, BuilderModel,
};
use crate::decimal::{common_scale, decimal_of, decimal_sum, law_sums_are_exact};
use crate::error::{CoreErrorModel, ToolErrorModel};
use crate::hooks::{AfterModel, Replacement};
use crate::queue::{QueueMode, QueueModel};
use crate::state::{
    total_usage, AccountingModel, AgentPhase, AgentSnapshot, AgentStateModel, MessageId,
    MessageModel, RunPhase, RunSnapshot, RunStateModel, TurnAccountingModel, UsageModel,
};
use crate::tool::{
    distinct_names, inserted, lemma_tool_index, removed, tool_index, DefinitionModel,
    ToolResultModel,
};
use crate::transition::{aborted, PendingUpdateModel, RunModel};
use crate::updates::WaitingModel;
use vstd::prelude::*;

verus! {

/// What a counter holds after some steps: it stops at its largest value.
pub open spec fn bounded(n: int) -> u64 {
    if n > u64::MAX {
        u64::MAX
    } else {
        n as u64
    }
}

proof fn lemma_advanced(counter: u64, n: nat)
    ensures
        crate::agent::advanced(counter, n) == bounded(counter + n),
    decreases n,
{
    if n > 0 {
        lemma_advanced(counter, (n - 1) as nat);
    }
}

proof fn lemma_prompts(texts: Seq<Seq<char>>, first: u64)
    ensures
        prompts(texts, first).len() == texts.len(),
        forall|i: int|
            0 <= i < texts.len() ==> #[trigger] prompts(texts, first)[i] == (MessageModel::User {
                id: MessageId(bounded(first + i)),
                content: texts[i],
            }),
    decreases texts.len(),
{
    if texts.len() > 0 {
        lemma_prompts(texts.drop_last(), first);
        lemma_advanced(first, (texts.len() - 1) as nat);
        assert forall|i: int| 0 <= i < texts.len() implies #[trigger] prompts(texts, first)[i] == (
        MessageModel::User { id: MessageId(bounded(first + i)), content: texts[i] }) by {
            if i < texts.len() - 1 {
                assert(prompts(texts, first)[i] == prompts(texts.drop_last(), first)[i]);
            }
        }
    }
}

/// A run starts with the whole history and, behind it, one user message for each text, in order
/// and with identifiers in order. Nothing is left of the run before: no failure, no partial
/// response, no pending call. The queues, the tools and the prompt are not touched.
pub proof fn law_a_run_starts_from_the_whole_history(agent: AgentModel, texts: Seq<Seq<char>>)
    ensures
        ({
            let after = started(agent, texts);
            let n = agent.state.messages.len();
            &&& after.state.messages.len() == n + texts.len()
            &&& forall|i: int|
                0 <= i < n ==> #[trigger] after.state.messages[i] == agent.state.messages[i]
            &&& forall|i: int|
                0 <= i < texts.len() ==> after.state.messages[n + i] == (MessageModel::User {
                    id: MessageId(bounded(agent.state.next_message_id + i)),
                    content: #[trigger] texts[i],
                })
            &&& after.state.next_message_id == bounded(agent.state.next_message_id + texts.len())
            &&& after.active_run == Some(upcoming_run(agent))
            &&& after.state.phase == AgentPhase::Running(upcoming_run(agent))
            &&& after.state.last_error is None
            &&& after.state.partial_response is None
            &&& !after.state.is_streaming
            &&& after.state.pending_tool_calls == Set::<Seq<char>>::empty()
            &&& after.queues == agent.queues
            &&& after.tools == agent.tools
            &&& after.state.system_prompt == agent.state.system_prompt
            &&& after.state.model == agent.state.model
            &&& after.state.thinking_level == agent.state.thinking_level
            &&& after.state.host_messages == agent.state.host_messages
            &&& after.state.accounting == agent.state.accounting
        }),
{
    lemma_prompts(texts, agent.state.next_message_id);
    lemma_advanced(agent.state.next_message_id, texts.len());
    let n = agent.state.messages.len() as int;
    let added = prompts(texts, agent.state.next_message_id);
    assert forall|i: int| 0 <= i < texts.len() implies started(agent, texts).state.messages[n + i]
        == (MessageModel::User {
        id: MessageId(bounded(agent.state.next_message_id + i)),
        content: #[trigger] texts[i],
    }) by {
        assert(started(agent, texts).state.messages[n + i] == added[i]);
    }
}

/// Runs get fresh identifiers in order, and an attempt to start one changes nothing but their
/// count.
pub proof fn law_runs_are_counted(agent: AgentModel, texts: Seq<Seq<char>>)
    requires
        agent.run_count < u64::MAX,
    ensures
        upcoming_run(agent).0 == agent.run_count + 1,
        started(agent, texts).run_count == agent.run_count + 1,
        crate::agent::counted(agent).run_count == agent.run_count + 1,
        crate::agent::counted(agent).state == agent.state,
        crate::agent::counted(agent).queues == agent.queues,
        crate::agent::counted(agent).active_run == agent.active_run,
{
}

/// A run that was created waits to be driven: it has published nothing, asks for nothing, and
/// carries the messages it was made with.
pub proof fn law_a_new_run_has_done_nothing(
    id: crate::state::RunId,
    messages: Seq<MessageModel>,
    start: nat,
    skip: bool,
)
    ensures
        ({
            let run = RunModel::created(id, messages, start, skip);
            &&& run.state.id == id
            &&& run.state.phase == RunPhase::Created
            &&& run.state.events.len() == 0
            &&& run.state.event_count == 0
            &&& run.state.error is None
            &&& run.initial_messages == messages
            &&& run.message_start_index == start
            &&& run.skip_initial_steering == skip
            &&& run.calls.len() == 0
            &&& run.running.len() == 0
            &&& run.outbox.len() == 0
        }),
{
}

/// A continuation behind an assistant message takes what steers first, and only where nothing
/// steers what follows up. What it takes leaves its queue from the front; the other queue is not
/// touched.
pub proof fn law_steering_goes_before_follow_up(agent: AgentModel)
    ensures
        ({
            let taken = tail_messages(agent);
            let after = after_tail(agent);
            if agent.queues.steering.entries.len() > 0 {
                &&& taken.len() > 0
                &&& taken + after.queues.steering.entries == agent.queues.steering.entries
                &&& after.queues.follow_up == agent.queues.follow_up
                &&& agent.steering == QueueMode::OneAtATime ==> taken.len() == 1
                &&& agent.steering == QueueMode::All ==> after.queues.steering.entries.len() == 0
            } else {
                &&& taken + after.queues.follow_up.entries == agent.queues.follow_up.entries
                &&& after.queues.steering == agent.queues.steering
                &&& agent.queues.follow_up.entries.len() > 0 ==> taken.len() > 0
                &&& agent.follow_up == QueueMode::OneAtATime ==> taken.len() <= 1
                &&& agent.follow_up == QueueMode::All ==> after.queues.follow_up.entries.len() == 0
            }
        }),
        after_tail(agent).state == agent.state,
        after_tail(agent).tools == agent.tools,
        after_tail(agent).run_count == agent.run_count,
        contents(tail_messages(agent)).len() == tail_messages(agent).len(),
        forall|i: int|
            0 <= i < tail_messages(agent).len() ==> contents(tail_messages(agent))[i] == (
            #[trigger] tail_messages(agent)[i]).content,
{
    crate::queue::law_drain_keeps_insertion_order(agent.queues.steering, agent.steering);
    crate::queue::law_drain_keeps_insertion_order(agent.queues.follow_up, agent.follow_up);
    let none: Seq<crate::queue::QueuedModel> = Seq::empty();
    assert(agent.queues.steering.entries.len() == 0 ==> agent.queues.steering.entries =~= none);
    assert(agent.queues.steering.entries.len() == 0 ==> agent.queues.steering.after_drain(
        agent.steering,
    ) =~= agent.queues.steering);
}

/// A reset forgets the conversation, the usage and what waits in the queues, and keeps who the
/// agent is: its prompt, its model, its tools and the counters that its identifiers come from.
pub proof fn law_a_reset_forgets_the_conversation(agent: AgentModel)
    ensures
        ({
            let after = after_reset(agent);
            &&& after.state.messages.len() == 0
            &&& after.state.host_messages.len() == 0
            &&& after.state.partial_response is None
            &&& !after.state.is_streaming
            &&& after.state.pending_tool_calls == Set::<Seq<char>>::empty()
            &&& after.state.last_error is None
            &&& after.state.accounting.turns.len() == 0
            &&& after.state.accounting.aggregate == UsageModel::unreported()
            &&& after.queues.steering.entries.len() == 0
            &&& after.queues.follow_up.entries.len() == 0
            &&& after.queues.steering.next_sequence == agent.queues.steering.next_sequence
            &&& after.queues.follow_up.next_sequence == agent.queues.follow_up.next_sequence
            &&& after.state.system_prompt == agent.state.system_prompt
            &&& after.state.model == agent.state.model
            &&& after.state.thinking_level == agent.state.thinking_level
            &&& after.state.next_message_id == agent.state.next_message_id
            &&& after.state.phase == agent.state.phase
            &&& after.tools == agent.tools
            &&& after.run_count == agent.run_count
            &&& after.steering == agent.steering
            &&& after.follow_up == agent.follow_up
            &&& after.provider == agent.provider
            &&& after.compactor == agent.compactor
        }),
{
}

/// Stopping a run empties the queues and drops what is unfinished. The history stays. A run that
/// was never driven settles at once and frees its agent; one that was driven keeps it until it
/// has settled.
pub proof fn law_stopping_keeps_the_history(agent: AgentModel, run: RunModel)
    ensures
        ({
            let after = after_abort(agent, run);
            &&& after.state.messages == agent.state.messages
            &&& after.state.accounting == agent.state.accounting
            &&& after.state.partial_response is None
            &&& !after.state.is_streaming
            &&& after.state.pending_tool_calls == Set::<Seq<char>>::empty()
            &&& after.queues.steering.entries.len() == 0
            &&& after.queues.follow_up.entries.len() == 0
            &&& run.state.phase == RunPhase::Created ==> after.state.phase == AgentPhase::Idle && (
            agent.active_run == Some(run.state.id) ==> after.active_run is None)
            &&& run.state.phase != RunPhase::Created && agent.state.phase != AgentPhase::Idle
                ==> after.state.phase == AgentPhase::Cancelling(run.state.id) && after.active_run
                == agent.active_run
            &&& run.state.phase == RunPhase::Created ==> run.stopped().state.phase
                == RunPhase::Cancelled
            &&& run.state.phase != RunPhase::Created ==> run.stopped().state.phase
                == run.state.phase
            &&& run.stopped().state.id == run.state.id
            &&& run.stopped().state.events == run.state.events
        }),
{
}

/// A new agent is idle and empty: it has what it was built with and nothing else.
pub proof fn law_a_new_agent_is_what_was_built(builder: BuilderModel)
    ensures
        ({
            let agent = builder.built();
            &&& agent.state.system_prompt == builder.system_prompt
            &&& agent.state.model == builder.model
            &&& agent.state.thinking_level == builder.thinking_level
            &&& agent.state.host_messages == builder.host_messages
            &&& agent.tools == builder.tools
            &&& agent.provider == builder.provider
            &&& agent.compactor == builder.compactor
            &&& agent.steering == builder.steering
            &&& agent.follow_up == builder.follow_up
            &&& agent.state.messages.len() == 0
            &&& agent.state.phase == AgentPhase::Idle
            &&& agent.state.last_error is None
            &&& agent.state.accounting.turns.len() == 0
            &&& agent.queues.steering.entries.len() == 0
            &&& agent.queues.follow_up.entries.len() == 0
            &&& agent.active_run is None
            &&& agent.run_count == 0
        }),
{
}

/// A message that is queued stands behind those that wait, with the next number, and comes out
/// with its text when the ones before it are gone.
pub proof fn law_queued_messages_wait_in_order(queue: QueueModel, content: Seq<char>)
    ensures
        ({
            let after = queue.pushed(content);
            &&& after.entries.len() == queue.entries.len() + 1
            &&& after.entries.drop_last() =~= queue.entries
            &&& after.entries.last().content == content
            &&& after.entries.last().sequence == bounded(queue.next_sequence + 1)
            &&& after.next_sequence == bounded(queue.next_sequence + 1)
            &&& queue.upcoming() == bounded(queue.next_sequence + 1)
            &&& queue.entries.len() == 0 ==> after.drained(QueueMode::OneAtATime).len() == 1
                && after.drained(QueueMode::OneAtATime)[0].content == content
        }),
        queue.entries.len() > 0 ==> queue.drained(QueueMode::OneAtATime).len() == 1,
        queue.drained(QueueMode::All).len() == queue.entries.len(),
        queue.cleared().entries.len() == 0,
        queue.cleared().next_sequence == queue.next_sequence,
        QueueModel::fresh().entries.len() == 0,
        QueueModel::fresh().next_sequence == 0,
{
}

/// Whether a total counts a report: what was not reported changes nothing, and a report is added,
/// up to the largest count.
pub open spec fn counts(total: Option<u64>, report: Option<u64>, after: Option<u64>) -> bool {
    match (total, report) {
        (Some(t), Some(r)) => after == Some(bounded(t + r)),
        (None, Some(r)) => after == Some(r),
        (t, None) => after == t,
    }
}

/// A report of usage is added to its total field by field, each field to its own.
pub proof fn law_usage_adds_up(total: UsageModel, report: UsageModel)
    ensures
        counts(total.input_tokens, report.input_tokens, total.plus(report).input_tokens),
        counts(total.output_tokens, report.output_tokens, total.plus(report).output_tokens),
        counts(total.reasoning_tokens, report.reasoning_tokens, total.plus(report).reasoning_tokens),
        counts(
            total.cache_read_tokens,
            report.cache_read_tokens,
            total.plus(report).cache_read_tokens,
        ),
        counts(
            total.cache_write_tokens,
            report.cache_write_tokens,
            total.plus(report).cache_write_tokens,
        ),
        report.cost is None ==> total.plus(report).cost == total.cost,
        total.cost is None ==> total.plus(report).cost == report.cost,
{
}

/// A later report of the same turn replaces what it reports, field by field, and nothing else.
pub proof fn law_later_reports_replace_what_they_report(usage: UsageModel, update: UsageModel)
    ensures
        ({
            let after = usage.merged(update);
            &&& after.input_tokens == if update.input_tokens is Some {
                update.input_tokens
            } else {
                usage.input_tokens
            }
            &&& after.output_tokens == if update.output_tokens is Some {
                update.output_tokens
            } else {
                usage.output_tokens
            }
            &&& after.reasoning_tokens == if update.reasoning_tokens is Some {
                update.reasoning_tokens
            } else {
                usage.reasoning_tokens
            }
            &&& after.cache_read_tokens == if update.cache_read_tokens is Some {
                update.cache_read_tokens
            } else {
                usage.cache_read_tokens
            }
            &&& after.cache_write_tokens == if update.cache_write_tokens is Some {
                update.cache_write_tokens
            } else {
                usage.cache_write_tokens
            }
            &&& after.cost == if update.cost is Some {
                update.cost
            } else {
                usage.cost
            }
        }),
        usage.merged(UsageModel::unreported()) == usage,
        UsageModel::unreported().merged(update) == update,
        usage.merged(update).merged(update) == usage.merged(update),
{
}

/// A hook replaces exactly the parts of a result that it names, and the result stays the answer
/// to its call.
pub proof fn law_hooks_replace_what_they_name(result: ToolResultModel, after: AfterModel)
    ensures
        ({
            let applied = after.applied(result);
            &&& applied.tool_call_id == result.tool_call_id
            &&& match after.content {
                Replacement::Keep => applied.content == result.content,
                Replacement::Replace(content) => applied.content == content,
            }
            &&& match after.details {
                Replacement::Keep => applied.details == result.details,
                Replacement::Replace(details) => applied.details == details,
            }
            &&& match after.usage {
                Replacement::Keep => applied.usage == result.usage,
                Replacement::Replace(usage) => applied.usage == Some(usage),
            }
            &&& match after.added_tool_names {
                Replacement::Keep => applied.added_tool_names == result.added_tool_names,
                Replacement::Replace(names) => applied.added_tool_names == names,
            }
            &&& match after.is_error {
                Replacement::Keep => applied.is_error == result.is_error,
                Replacement::Replace(is_error) => applied.is_error == is_error,
            }
            &&& after.terminate is None ==> applied.terminate == result.terminate
            &&& after.terminate matches Some(terminate) ==> applied.terminate == terminate
        }),
{
}

/// Tools keep the order in which they were declared: a new one comes last, one with a known name
/// takes the place of the old, and a removed one leaves the others in order.
pub proof fn law_tools_keep_their_declared_order(
    tools: Seq<DefinitionModel>,
    tool: DefinitionModel,
    i: int,
)
    requires
        distinct_names(tools),
    ensures
        (forall|k: int| 0 <= k < tools.len() ==> (#[trigger] tools[k]).name != tool.name)
            ==> inserted(tools, tool) == tools.push(tool) && removed(tools, tool.name) == tools,
        0 <= i < tools.len() && tools[i].name == tool.name ==> inserted(tools, tool)
            == tools.update(i, tool) && removed(tools, tool.name) == tools.take(i) + tools.skip(
            i + 1,
        ),
{
    lemma_tool_index(tools, tool.name);
    let k = tool_index(tools, tool.name);
    if k < tools.len() {
        assert(tools[k].name == tool.name);
    }
    if 0 <= i < tools.len() && tools[i].name == tool.name {
        if k < i {
            assert(tools[k].name != tools[i].name);
        }
        assert(k == i);
        assert(tools.remove(i) =~= tools.take(i) + tools.skip(i + 1));
    }
}

/// Whether a text ends with another.
pub open spec fn ends_with(text: Seq<char>, end: Seq<char>) -> bool {
    text.len() >= end.len() && text.skip(text.len() - end.len()) == end
}

/// The text of a failure ends with the message of what failed.
pub proof fn law_failures_tell_their_message(hook: Seq<char>, message: Seq<char>)
    ensures
        ends_with(CoreErrorModel::ModelProvider { message }.text(), message),
        ends_with(CoreErrorModel::ModelError { message }.text(), message),
        ends_with(CoreErrorModel::ModelAborted { message }.text(), message),
        ends_with(CoreErrorModel::UnsupportedModelStream { message }.text(), message),
        ends_with(CoreErrorModel::Hook { hook, message }.text(), message),
{
    lemma_end(CoreErrorModel::ModelProvider { message }.text(), "model provider failed: "@, message);
    lemma_end(CoreErrorModel::ModelError { message }.text(), "model response failed: "@, message);
    lemma_end(
        CoreErrorModel::ModelAborted { message }.text(),
        "model response was aborted: "@,
        message,
    );
    lemma_end(
        CoreErrorModel::UnsupportedModelStream { message }.text(),
        "unsupported model stream: "@,
        message,
    );
    lemma_end(
        CoreErrorModel::Hook { hook, message }.text(),
        hook + " hook failed: "@,
        message,
    );
}

proof fn lemma_end(text: Seq<char>, head: Seq<char>, end: Seq<char>)
    requires
        text == head + end,
    ensures
        ends_with(text, end),
{
    assert(text.skip(text.len() - end.len()) =~= end);
}

/// Two costs that are decimal numbers are added exactly: at any common scale, the sum is the sum of
/// both. A cost that is no decimal number is not added.
pub proof fn law_costs_add_up_exactly(
    total: UsageModel,
    report: UsageModel,
    a: Seq<char>,
    b: Seq<char>,
)
    requires
        total.cost == Some(a),
        report.cost == Some(b),
    ensures
        match (decimal_of(a), decimal_of(b)) {
            (Some(x), Some(y)) => {
                let k = common_scale(x, y);
                &&& total.plus(report).cost matches Some(text)
                &&& decimal_of(text) matches Some(sum)
                &&& sum.scale <= k
                &&& sum.at_scale(k) == x.at_scale(k) + y.at_scale(k)
            },
            _ => total.plus(report).cost == Some(a),
        },
{
    if decimal_sum(a, b) is Some {
        law_sums_are_exact(a, b);
    }
}

/// The usage of a turn is kept with its run, its turn and its model, behind those before it, and
/// is added to the aggregate.
pub proof fn law_turns_are_accounted_in_order(
    accounting: AccountingModel,
    turns: Seq<TurnAccountingModel>,
    turn: TurnAccountingModel,
)
    ensures
        accounting.recorded(turn).turns.len() == accounting.turns.len() + 1,
        accounting.recorded(turn).turns.last() == turn,
        accounting.recorded(turn).turns.drop_last() =~= accounting.turns,
        accounting.recorded(turn).aggregate == accounting.aggregate.plus(turn.usage),
        total_usage(turns.push(turn)) == total_usage(turns).plus(turn.usage),
        total_usage(Seq::empty()) == UsageModel::unreported(),
        accounting.balanced() ==> accounting.recorded(turn).balanced(),
{
    assert(turns.push(turn).drop_last() =~= turns);
    assert(accounting.turns.push(turn).drop_last() =~= accounting.turns);
}

/// A snapshot shows what its agent holds, and leaves nothing of it out.
pub proof fn law_snapshots_show_their_agent(snapshot: AgentSnapshot, state: AgentStateModel)
    requires
        snapshot.shows(state),
    ensures
        snapshot.system_prompt@ == state.system_prompt,
        snapshot.thinking_level == state.thinking_level,
        snapshot.messages@.len() == state.messages.len(),
        forall|i: int|
            0 <= i < state.messages.len() ==> (#[trigger] snapshot.messages@[i])@
                == state.messages[i],
        snapshot.host_messages@.len() == state.host_messages.len(),
        snapshot.phase == state.phase,
        snapshot.is_streaming == state.is_streaming,
        snapshot.pending_tool_calls@ == state.pending_tool_calls,
        snapshot.last_error is Some <==> state.last_error is Some,
        snapshot.last_error matches Some(text) ==> Some(text@) == state.last_error,
        snapshot.partial_response matches Some(text) ==> Some(text@) == state.partial_response,
        snapshot.accounting@ == state.accounting,
{
    assert forall|i: int| 0 <= i < state.messages.len() implies (#[trigger] snapshot.messages@[i])@
        == state.messages[i] by {
        assert(crate::model::views(snapshot.messages@)[i] == snapshot.messages@[i]@);
    }
}

/// A snapshot of a run shows its identity, its phase, its turn and its outcome.
pub proof fn law_snapshots_show_their_run(snapshot: RunSnapshot, run: RunStateModel)
    requires
        snapshot.shows(run),
    ensures
        snapshot.id == run.id,
        snapshot.phase == run.phase,
        snapshot.turn_id == run.turn_id,
        snapshot.stop_reason == run.stop_reason,
        snapshot.event_count == run.event_count,
        snapshot.error is Some <==> run.error is Some,
        snapshot.error matches Some(text) ==> Some(text@) == run.error,
        run.phase.terminal() <==> run.phase == RunPhase::Succeeded || run.phase == RunPhase::Failed
            || run.phase == RunPhase::Cancelled,
{
}

/// An update waits behind those before it, unless its call is closed; then it is discarded.
pub proof fn law_updates_wait_in_order(waiting: WaitingModel, update: PendingUpdateModel)
    ensures
        ({
            let after = waiting.pushed(update);
            &&& after.closed == waiting.closed
            &&& waiting.closed.contains(update.tool_call_id) ==> after.updates == waiting.updates
            &&& !waiting.closed.contains(update.tool_call_id) ==> after.updates.len()
                == waiting.updates.len() + 1 && after.updates.last() == update
                && after.updates.drop_last() =~= waiting.updates
        }),
{
}

/// A failed tool leaves its own message in the conversation.
pub proof fn law_failed_tools_leave_their_message(tool: Seq<char>, text: Seq<char>)
    ensures
        (ToolErrorModel::InvalidArguments { tool, message: text }).result_text() == text,
        (ToolErrorModel::Execution { tool, message: text }).result_text() == text,
        (ToolErrorModel::Blocked { tool, reason: text }).result_text() == text,
{
}

/// A request to stop touches nothing of a run that has its outcome. It cancels a run that was never
/// driven and frees its agent; otherwise the agent waits for the run to settle, and the run itself
/// goes on until its next step. Neither the history nor what waits in the queues changes.
pub proof fn law_a_stop_waits_for_the_run(run: RunModel, agent: AgentModel)
    ensures
        ({
            let after = aborted(run, agent);
            let stopped = run.stopped();
            &&& run.state.phase.terminal() ==> after == agent && stopped == run
            &&& run.state.phase == RunPhase::Created ==> {
                &&& after.state.phase == AgentPhase::Idle
                &&& after.active_run is None
                &&& after.state.last_error is None
                &&& after.state.partial_response is None
                &&& stopped.state.phase == RunPhase::Cancelled
            }
            &&& !run.state.phase.terminal() && run.state.phase != RunPhase::Created ==> {
                &&& after.state.phase == AgentPhase::Cancelling(run.state.id)
                &&& after.active_run == agent.active_run
                &&& stopped.state.phase == run.state.phase
            }
            &&& after.state.messages == agent.state.messages
            &&& after.queues == agent.queues
            &&& after.tools == agent.tools
        }),
{
}

} // verus!
