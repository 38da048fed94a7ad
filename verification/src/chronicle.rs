//! What a trace tells of a run, and what a compaction does to a history, step by step.

use crate::agent::{upcoming_run, AgentModel};
use crate::compaction::{
    coherent, law_no_fault_means_coherent, next, reserved, CompactionActionModel, CompactionInputModel,
    CompactionModel, CompactionPoint, CompactionResultModel,
};
use crate::error::CoreErrorModel;
use crate::event::{EventKindModel, OutcomeModel};
use crate::state::{id_bound, AgentPhase, MessageId, MessageModel, RunPhase, StopReason, TurnId};
use crate::tool::ToolResultModel;
use crate::trace::{
    pending, without, EndReason, TraceEventModel, TraceModel, TraceToolModel,
};
use vstd::prelude::*;

verus! {

proof fn lemma_pending_without(tools: Seq<TraceToolModel>, gone: Seq<char>, id: Seq<char>)
    ensures
        id == gone ==> pending(without(tools, gone), id) is None,
        id != gone ==> pending(without(tools, gone), id) == pending(tools, id),
    decreases tools.len(),
{
    reveal(Seq::filter);
    if tools.len() > 0 {
        lemma_pending_without(tools.drop_last(), gone, id);
        let rest = without(tools.drop_last(), gone);
        if tools.last().call_id != gone {
            assert(without(tools, gone) == rest.push(tools.last()));
            assert(rest.push(tools.last()).drop_last() =~= rest);
        } else {
            assert(without(tools, gone) == rest);
        }
    }
}

/// A call is recorded when it ends, once, with the name it started with, in the turn it started
/// in, and with what its tool returned: as its output, or as its error where the result is one.
/// What other calls do in between changes nothing of it.
pub proof fn law_calls_are_recorded_with_their_results(
    trace: TraceModel,
    id: Seq<char>,
    name: Seq<char>,
    arguments: Seq<char>,
    result: ToolResultModel,
)
    ensures
        ({
            let running = trace.after(
                EventKindModel::ToolExecutionStart {
                    tool_call_id: id,
                    tool_name: name,
                    arguments,
                },
            );
            let end = EventKindModel::ToolExecutionEnd {
                tool_call_id: id,
                tool_name: name,
                result,
            };
            &&& running.record(end) matches Some(TraceEventModel::Tool(tool))
            &&& tool.call_id == id
            &&& tool.name == name
            &&& tool.turn_index == trace.index()
            &&& tool.input.len() == 0
            &&& tool.output == if result.is_error {
                None
            } else {
                Some(result.content)
            }
            &&& tool.error == if result.is_error {
                Some(result.content)
            } else {
                None
            }
            &&& pending(running.after(end).tools, id) is None
            &&& running.turn == trace.turn
        }),
{
    reveal_strlit("");
    let tool = crate::trace::opened(trace.index(), id, name);
    let before = without(trace.tools, id);
    assert(before.push(tool).last() == tool);
    lemma_pending_without(before.push(tool), id, id);
}

/// Neither the start nor the end of a call changes what is known of another.
pub proof fn law_calls_are_recorded_apart(
    trace: TraceModel,
    id: Seq<char>,
    other: Seq<char>,
    name: Seq<char>,
    arguments: Seq<char>,
    result: ToolResultModel,
)
    requires
        id != other,
    ensures
        pending(
            trace.after(
                EventKindModel::ToolExecutionStart {
                    tool_call_id: other,
                    tool_name: name,
                    arguments,
                },
            ).tools,
            id,
        ) == pending(trace.tools, id),
        pending(
            trace.after(
                EventKindModel::ToolExecutionEnd { tool_call_id: other, tool_name: name, result },
            ).tools,
            id,
        ) == pending(trace.tools, id),
{
    lemma_pending_without(trace.tools, other, id);
    let before = without(trace.tools, other);
    let tool = crate::trace::opened(trace.index(), other, name);
    assert(before.push(tool).drop_last() =~= before);
}

/// A turn starts empty, under its number counted from zero. User texts are collected line by
/// line, and the last text of the assistant is the output.
pub proof fn law_turns_collect_their_messages(
    trace: TraceModel,
    turn_id: TurnId,
    id: MessageId,
    text: Seq<char>,
)
    requires
        1 <= turn_id.0 <= u32::MAX,
    ensures
        ({
            let fresh = trace.after(EventKindModel::TurnStart { turn_id });
            &&& fresh.turn matches Some(turn)
            &&& turn.index == turn_id.0 - 1
            &&& turn.input.len() == 0
            &&& turn.output is None
            &&& fresh.tools == trace.tools
        }),
        ({
            let message = MessageModel::User { id, content: text };
            let told = trace.after(EventKindModel::MessageStart { message });
            &&& told.error == trace.error
            &&& trace.turn is None ==> told.turn is None
            &&& trace.turn is Some && trace.turn->0.last_input_message != Some(id) ==> {
                let turn = trace.turn->0;
                &&& told.turn matches Some(after)
                &&& turn.input.len() == 0 ==> after.input == text
                &&& turn.input.len() > 0 ==> after.input == turn.input + seq!['\n'] + text
                &&& after.output == turn.output
                &&& after.index == turn.index
                &&& after.last_input_message == Some(id)
            }
        }),
        forall|message: MessageModel|
            {
                let told = #[trigger] trace.after(EventKindModel::MessageEnd { message });
                &&& told == trace.after(EventKindModel::MessageStart { message })
                &&& message matches MessageModel::Assistant { content, error_message, .. } ==> {
                    &&& told.error == error_message
                    &&& trace.turn matches Some(turn) ==> told.turn matches Some(after)
                        && after.output == Some(content) && after.input == turn.input
                        && after.index == turn.index
                }
                &&& message is ToolResult ==> told == trace
            },
{
    reveal_strlit("");
    reveal_strlit("\n");
    assert("\n"@ =~= seq!['\n']);
}

/// A turn is recorded when it ends, with what it collected and the name of its reason. How the
/// last turn ended is how the episode ends.
pub proof fn law_turns_are_recorded_as_collected(
    trace: TraceModel,
    turn_id: TurnId,
    reason: StopReason,
)
    requires
        trace.turn is Some,
    ensures
        ({
            let end = EventKindModel::TurnEnd { turn_id, reason };
            let turn = trace.turn->0;
            &&& trace.record(end) matches Some(TraceEventModel::Turn(told))
            &&& told.index == turn.index
            &&& told.input == turn.input
            &&& told.output == turn.output
            &&& told.stop_reason == Some(
                if reason == StopReason::EndTurn {
                    "end_turn"@
                } else if reason == StopReason::ToolUse {
                    "tool_use"@
                } else if reason == StopReason::Length {
                    "length"@
                } else if reason == StopReason::Aborted {
                    "aborted"@
                } else if reason == StopReason::Cancelled {
                    "cancelled"@
                } else {
                    "error"@
                },
            )
            &&& trace.after(end).turn is None
            &&& trace.after(end).tools == trace.tools
            &&& trace.after(end).error == trace.error
            &&& (trace.after(end).end_reason == EndReason::Failed) == (reason == StopReason::Error)
            &&& (trace.after(end).end_reason == EndReason::Aborted) == (reason
                == StopReason::Aborted)
            &&& (trace.after(end).end_reason == EndReason::Cancelled) == (reason
                == StopReason::Cancelled)
        }),
{
}

/// An episode opens with its identifier and nothing left of the one before, and closes with how
/// its last turn ended and the last failure of the assistant.
pub proof fn law_episodes_open_and_close(trace: TraceModel, messages: Seq<MessageModel>)
    ensures
        trace.record(EventKindModel::AgentStart) == Some(
            TraceEventModel::EpisodeHeader { episode_id: trace.episode_id },
        ),
        ({
            let opened = trace.after(EventKindModel::AgentStart);
            &&& opened.turn is None
            &&& opened.tools.len() == 0
            &&& opened.end_reason == EndReason::Completed
            &&& opened.error is None
            &&& opened.episode_id == trace.episode_id
        }),
        trace.record(EventKindModel::AgentEnd { messages }) == Some(
            TraceEventModel::EpisodeEnd { reason: trace.end_reason, error: trace.error },
        ),
        trace.after(EventKindModel::AgentEnd { messages }) == trace,
{
}

/// A compaction is announced with the length of the history, and then hands the compactor the
/// whole of it, with the prompt, the model and the messages of the host. Neither changes the
/// agent.
pub proof fn law_a_compactor_gets_the_whole_history(
    compaction: CompactionModel,
    agent: AgentModel,
    cancelled: bool,
)
    requires
        agent.state.messages.len() <= usize::MAX,
    ensures
        compaction.point == CompactionPoint::Created ==> {
            let step = next(compaction, agent, CompactionInputModel::Drive, cancelled);
            &&& step.agent == agent
            &&& step.action matches CompactionActionModel::Publish(event)
            &&& event.kind matches EventKindModel::CompactionStart { source_message_count }
            &&& source_message_count == agent.state.messages.len()
            &&& step.compaction.point == CompactionPoint::Started
        },
        compaction.point == CompactionPoint::Started ==> {
            let step = next(compaction, agent, CompactionInputModel::Published, cancelled);
            &&& step.agent == agent
            &&& if cancelled {
                &&& step.action matches CompactionActionModel::Publish(event)
                &&& event.kind == (EventKindModel::CompactionEnd {
                    outcome: OutcomeModel::Cancelled,
                })
            } else {
                &&& step.action matches CompactionActionModel::Compact(context)
                &&& context.messages == agent.state.messages
                &&& context.host_messages == agent.state.host_messages
                &&& context.system_prompt == agent.state.system_prompt
                &&& context.model == agent.state.model
                &&& step.compaction.point == CompactionPoint::Compacting
            }
        },
{
}

/// A coherent proposal replaces the whole history by exactly its messages, and is published with
/// their number and its usage. The identifiers to come stay above those in use before.
pub proof fn law_a_coherent_proposal_becomes_the_history(
    compaction: CompactionModel,
    agent: AgentModel,
    result: CompactionResultModel,
)
    requires
        compaction.point == CompactionPoint::Compacting,
        agent.state.phase == AgentPhase::Running(compaction.run.state.id),
        coherent(result.messages),
        result.messages.len() <= usize::MAX,
    ensures
        ({
            let step = next(
                compaction,
                agent,
                CompactionInputModel::Compacted(Ok(result)),
                false,
            );
            &&& step.agent.state.messages == result.messages
            &&& step.agent.state.next_message_id >= agent.state.next_message_id
            &&& step.agent.state.accounting == agent.state.accounting
            &&& step.agent.state.system_prompt == agent.state.system_prompt
            &&& step.agent.queues == agent.queues
            &&& step.action matches CompactionActionModel::Publish(event)
            &&& event.kind matches EventKindModel::CompactionResult {
                retained_message_count,
                usage,
            }
            &&& retained_message_count == result.messages.len()
            &&& usage == result.usage
            &&& step.compaction.retained == result.messages.len()
            &&& step.compaction.point == CompactionPoint::Replaced
        }),
{
    law_no_fault_means_coherent(result.messages);
}

/// A proposal that is not coherent, or that comes too late, is not taken: the history stays, and
/// the compaction is published as failed or cancelled.
pub proof fn law_other_proposals_leave_the_history(
    compaction: CompactionModel,
    agent: AgentModel,
    result: CompactionResultModel,
    cancelled: bool,
)
    requires
        compaction.point == CompactionPoint::Compacting,
        cancelled || !coherent(result.messages) || agent.state.phase != AgentPhase::Running(
            compaction.run.state.id,
        ),
    ensures
        ({
            let step = next(
                compaction,
                agent,
                CompactionInputModel::Compacted(Ok(result)),
                cancelled,
            );
            &&& step.agent == agent
            &&& step.action matches CompactionActionModel::Publish(event)
            &&& event.kind matches EventKindModel::CompactionEnd { outcome }
            &&& cancelled ==> outcome == OutcomeModel::Cancelled
            &&& !cancelled && !coherent(result.messages) ==> outcome is Failed
                && step.compaction.error is Some
            &&& !cancelled && coherent(result.messages) ==> outcome == OutcomeModel::Cancelled
        }),
{
    law_no_fault_means_coherent(result.messages);
}

/// A compactor that fails leaves the history; its failure is published and then returned.
pub proof fn law_a_failed_compaction_is_reported(
    compaction: CompactionModel,
    agent: AgentModel,
    error: crate::compaction::CompactionErrorModel,
    cancelled: bool,
)
    requires
        !compaction.run.state.phase.terminal(),
    ensures
        compaction.point == CompactionPoint::Compacting ==> {
            let step = next(
                compaction,
                agent,
                CompactionInputModel::Compacted(Err(error)),
                cancelled,
            );
            &&& step.agent == agent
            &&& step.action matches CompactionActionModel::Publish(event)
            &&& event.kind == (EventKindModel::CompactionEnd {
                outcome: OutcomeModel::Failed { message: error.text() },
            })
            &&& step.compaction.error == Some(error)
            &&& step.compaction.point == CompactionPoint::Failed
        },
        compaction.point == CompactionPoint::Failed && compaction.error == Some(error) ==> {
            let step = next(compaction, agent, CompactionInputModel::Published, cancelled);
            &&& step.action == CompactionActionModel::Done(Err(CoreErrorModel::Compaction(error)))
            &&& step.agent.state.last_error == Some(error.text())
            &&& step.agent.state.messages == agent.state.messages
            &&& step.compaction.run.state.phase == RunPhase::Failed
        },
{
}

/// A compaction that replaced the history is published as a success with what it retained, and
/// then succeeds; one that was cancelled returns so. Neither touches the history again.
pub proof fn law_a_compaction_returns_its_outcome(
    compaction: CompactionModel,
    agent: AgentModel,
    cancelled: bool,
    error: CoreErrorModel,
)
    requires
        !compaction.run.state.phase.terminal(),
    ensures
        compaction.point == CompactionPoint::Replaced ==> {
            let step = next(compaction, agent, CompactionInputModel::Published, cancelled);
            &&& step.agent == agent
            &&& step.action matches CompactionActionModel::Publish(event)
            &&& event.kind == (EventKindModel::CompactionEnd {
                outcome: OutcomeModel::Succeeded { retained_message_count: compaction.retained },
            })
            &&& step.compaction.point == CompactionPoint::Ended
        },
        compaction.point == CompactionPoint::Ended ==> {
            let step = next(compaction, agent, CompactionInputModel::Published, cancelled);
            &&& step.action == CompactionActionModel::Done(Ok(()))
            &&& step.agent.state.messages == agent.state.messages
            &&& step.agent.state.last_error is None
            &&& step.compaction.run.state.phase == RunPhase::Succeeded
        },
        compaction.point == CompactionPoint::Cancelled ==> {
            let step = next(compaction, agent, CompactionInputModel::Published, cancelled);
            &&& step.action == CompactionActionModel::Done(Err(CoreErrorModel::Cancelled))
            &&& step.agent.state.messages == agent.state.messages
            &&& step.compaction.run.state.phase == RunPhase::Cancelled
        },
        ({
            let step = next(compaction, agent, CompactionInputModel::Failed(error), cancelled);
            &&& step.action == CompactionActionModel::Done(Err(error))
            &&& step.agent.state.messages == agent.state.messages
            &&& step.compaction.run.state.phase == RunPhase::Failed
        }),
{
}

proof fn lemma_id_bound(messages: Seq<MessageModel>)
    ensures
        id_bound(messages) >= 1,
        forall|i: int|
            0 <= i < messages.len() && (#[trigger] messages[i]).message_id().0 < u64::MAX
                ==> messages[i].message_id().0 < id_bound(messages),
    decreases messages.len(),
{
    if messages.len() > 0 {
        lemma_id_bound(messages.drop_last());
        assert forall|i: int|
            0 <= i < messages.len() && (#[trigger] messages[i]).message_id().0
                < u64::MAX implies messages[i].message_id().0 < id_bound(messages) by {
            if i < messages.len() - 1 {
                assert(messages.drop_last()[i] == messages[i]);
            }
        }
    }
}

/// After a compaction, no message that is still to come gets the identifier of one that was
/// retained or of one before.
pub proof fn law_identifiers_stay_fresh_after_a_compaction(
    compaction: CompactionModel,
    agent: AgentModel,
    result: CompactionResultModel,
)
    requires
        compaction.point == CompactionPoint::Compacting,
        agent.state.phase == AgentPhase::Running(compaction.run.state.id),
        coherent(result.messages),
    ensures
        ({
            let after = next(
                compaction,
                agent,
                CompactionInputModel::Compacted(Ok(result)),
                false,
            ).agent.state;
            &&& after.next_message_id >= agent.state.next_message_id
            &&& forall|i: int|
                0 <= i < result.messages.len() ==> (#[trigger] result.messages[i]).message_id().0
                    < after.next_message_id
        }),
{
    law_no_fault_means_coherent(result.messages);
    lemma_id_bound(result.messages);
}

/// A compaction that takes an agent owns it under the next run identifier. The history, the queues
/// and the usage stay as they are.
pub proof fn law_a_compaction_owns_its_agent(agent: AgentModel)
    ensures
        ({
            let after = reserved(agent);
            &&& after.active_run == Some(upcoming_run(agent))
            &&& after.state.phase == AgentPhase::Running(upcoming_run(agent))
            &&& after.state.messages == agent.state.messages
            &&& after.state.host_messages == agent.state.host_messages
            &&& after.state.accounting == agent.state.accounting
            &&& after.state.last_error is None
            &&& after.queues == agent.queues
            &&& after.tools == agent.tools
        }),
{
}

} // verus!
