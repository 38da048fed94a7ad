//! What the steps of a run do with the tool calls of a response: how a call comes to its tool.

use crate::agent::{owner, AgentModel};
use crate::conduct::announces;
use crate::error::ToolErrorModel;
use crate::event::EventKindModel;
use crate::hooks::{BeforeModel, ContextModel};
use crate::state::{CallModel, MessageModel, StopReason};
use crate::tool::{
    distinct_names, lemma_tool_index, tool_index, DefinitionModel, ToolExecutionMode,
};
use crate::transition::{
    after_response, announce, announce_or_launch, append, conclude, decided, end_turn,
    is_sequential, next, prepare, refuse, resume, validated, wants_sequence, ActionModel,
    InputModel, Point, RunModel,
};
use vstd::prelude::*;

verus! {

/// Whether a tool is the first with this name.
pub open spec fn first_named(tools: Seq<DefinitionModel>, j: int, name: Seq<char>) -> bool {
    &&& 0 <= j < tools.len()
    &&& tools[j].name == name
    &&& forall|k: int| 0 <= k < j ==> (#[trigger] tools[k]).name != name
}

/// Whether a name is that of a registered tool that must run alone. Of tools with one name the
/// first counts.
pub open spec fn runs_alone(tools: Seq<DefinitionModel>, name: Seq<char>) -> bool {
    exists|j: int| #[trigger]
        first_named(tools, j, name) && tools[j].execution_mode == ToolExecutionMode::Sequential
}

/// Whether any call of a batch names a registered tool that must run alone.
pub open spec fn names_a_sequential_tool(
    calls: Seq<CallModel>,
    tools: Seq<DefinitionModel>,
) -> bool {
    exists|i: int| 0 <= i < calls.len() && runs_alone(tools, (#[trigger] calls[i]).name)
}

proof fn lemma_runs_alone(agent: AgentModel, name: Seq<char>)
    ensures
        is_sequential(agent, name) == runs_alone(agent.tools, name),
{
    lemma_tool_index(agent.tools, name);
    let found = tool_index(agent.tools, name);
    if found < agent.tools.len() {
        assert(first_named(agent.tools, found, name));
    }
    if runs_alone(agent.tools, name) {
        let j = choose|j: int| #[trigger]
            first_named(agent.tools, j, name) && agent.tools[j].execution_mode
                == ToolExecutionMode::Sequential;
        assert(agent.tools[j].name == name);
        assert(found <= j);
        if found < j {
            assert(agent.tools[found].name != name);
        }
    }
}

pub(crate) proof fn lemma_sequence_wanted(run: RunModel, agent: AgentModel)
    ensures
        wants_sequence(run, agent) == names_a_sequential_tool(run.calls, agent.tools),
{
    if wants_sequence(run, agent) {
        let i = choose|i: int|
            0 <= i < run.calls.len() && is_sequential(agent, (#[trigger] run.calls[i]).name);
        lemma_runs_alone(agent, run.calls[i].name);
    }
    if names_a_sequential_tool(run.calls, agent.tools) {
        let i = choose|i: int|
            0 <= i < run.calls.len() && runs_alone(agent.tools, (#[trigger] run.calls[i]).name);
        lemma_runs_alone(agent, run.calls[i].name);
    }
}

/// Whether some call names some tool that must run alone.
pub open spec fn meets_a_sequential_tool(
    calls: Seq<CallModel>,
    tools: Seq<DefinitionModel>,
) -> bool {
    exists|i: int, j: int|
        #![trigger calls[i], tools[j]]
        0 <= i < calls.len() && 0 <= j < tools.len() && tools[j].name == calls[i].name
            && tools[j].execution_mode == ToolExecutionMode::Sequential
}

pub(crate) proof fn lemma_meets(calls: Seq<CallModel>, tools: Seq<DefinitionModel>)
    requires
        distinct_names(tools),
    ensures
        names_a_sequential_tool(calls, tools) == meets_a_sequential_tool(calls, tools),
{
    if names_a_sequential_tool(calls, tools) {
        let i = choose|i: int|
            0 <= i < calls.len() && runs_alone(tools, (#[trigger] calls[i]).name);
        let j = choose|j: int| #[trigger]
            first_named(tools, j, calls[i].name) && tools[j].execution_mode
                == ToolExecutionMode::Sequential;
        assert(tools[j].name == calls[i].name);
    }
    if meets_a_sequential_tool(calls, tools) {
        let (i, j) = choose|i: int, j: int|
            #![trigger calls[i], tools[j]]
            0 <= i < calls.len() && 0 <= j < tools.len() && tools[j].name == calls[i].name
                && tools[j].execution_mode == ToolExecutionMode::Sequential;
        assert(first_named(tools, j, calls[i].name));
        assert(runs_alone(tools, calls[i].name));
    }
}

/// A response that asks for tools starts a batch of exactly its calls. The batch is parallel if
/// and only if none of its calls, wherever it stands, names a tool that must run alone. The first
/// call is announced first, and no call has a result yet.
pub proof fn law_one_sequential_tool_makes_its_batch_sequential(
    run: RunModel,
    agent: AgentModel,
    cancelled: bool,
)
    requires
        run.point == Point::UsagePublished,
        run.outbox.len() == 0,
        run.reason == StopReason::ToolUse,
        run.calls.len() > 0,
        distinct_names(agent.tools),
    ensures
        ({
            let step = next(run, agent, InputModel::Published, cancelled);
            &&& step.run.parallel == !meets_a_sequential_tool(run.calls, agent.tools)
            &&& step.run.calls == run.calls
            &&& step.run.slots.len() == run.calls.len()
            &&& forall|i: int|
                0 <= i < run.calls.len() ==> (#[trigger] step.run.slots[i]).result is None
            &&& step.run.running.len() == 0
            &&& step.run.point == Point::Started(0)
            &&& announces(
                step,
                seq![
                    EventKindModel::ToolExecutionStart {
                        tool_call_id: run.calls[0].id,
                        tool_name: run.calls[0].name,
                        arguments: run.calls[0].arguments,
                    },
                ],
            )
        }),
{
    reveal(next);
    reveal(resume);
    reveal(after_response);
    reveal(announce);
    lemma_sequence_wanted(run, agent);
    lemma_meets(run.calls, agent.tools);
    let step = next(run, agent, InputModel::Published, cancelled);
    assert(step.run.outbox =~= seq![
        EventKindModel::ToolExecutionStart {
            tool_call_id: run.calls[0].id,
            tool_name: run.calls[0].name,
            arguments: run.calls[0].arguments,
        },
    ].skip(1));
}

/// A response without calls, or with a failure, starts no tool. One without calls ends its turn;
/// a failed or aborted one ends its turn with its reason, whatever calls it carried; one that was
/// cut short at the token limit executes none of its calls.
pub proof fn law_other_responses_start_no_tool(
    run: RunModel,
    agent: AgentModel,
    cancelled: bool,
)
    requires
        run.point == Point::UsagePublished,
        run.outbox.len() == 0,
    ensures
        ({
            let step = next(run, agent, InputModel::Published, cancelled);
            let failed = run.reason == StopReason::Error || run.reason == StopReason::Aborted;
            &&& failed || run.calls.len() == 0 ==> announces(
                step,
                seq![EventKindModel::TurnEnd { turn_id: run.turn_id, reason: run.reason }],
            )
            &&& failed ==> step.run.point == Point::FailedTurn
            &&& !failed && run.calls.len() == 0 ==> step.run.point == Point::TurnEnded
                && !step.run.terminate
            &&& run.reason == StopReason::Length && run.calls.len() > 0 ==> step.run.point
                == Point::TruncatedStarted(0)
        }),
{
    reveal(next);
    reveal(resume);
    reveal(after_response);
    reveal(end_turn);
    reveal(announce);
    let step = next(run, agent, InputModel::Published, cancelled);
    let ended = seq![EventKindModel::TurnEnd { turn_id: run.turn_id, reason: run.reason }];
    assert(ended.skip(1) =~= Seq::<EventKindModel>::empty());
    if run.reason == StopReason::Error || run.reason == StopReason::Aborted || run.calls.len() == 0 {
        assert(step.run.outbox =~= ended.skip(1));
    }
}

/// A call that a truncated response asked for is answered with an error that names its tool, in
/// the order of the calls, and once all are answered the turn ends with the model to be asked
/// again.
pub proof fn law_truncated_calls_are_answered_with_errors(
    run: RunModel,
    agent: AgentModel,
    i: usize,
    cancelled: bool,
)
    requires
        run.outbox.len() == 0,
        i < run.calls.len() <= usize::MAX,
    ensures
        run.point == Point::TruncatedStarted(i) ==> ({
            let step = next(run, agent, InputModel::Published, cancelled);
            &&& step.action matches ActionModel::Publish(event)
            &&& event.kind matches EventKindModel::ToolExecutionEnd {
                tool_call_id,
                tool_name,
                result,
            }
            &&& tool_call_id == run.calls[i as int].id
            &&& tool_name == run.calls[i as int].name
            &&& result.tool_call_id == run.calls[i as int].id
            &&& result.is_error
            &&& !result.terminate
            &&& step.run.point == Point::TruncatedEnded(i)
        }),
        run.point == Point::TruncatedEnded(i) ==> ({
            let step = next(run, agent, InputModel::Published, cancelled);
            &&& step.agent.state.messages.len() == agent.state.messages.len() + 1
            &&& step.agent.state.messages.drop_last() == agent.state.messages
            &&& step.agent.state.messages.last() matches MessageModel::ToolResult {
                tool_call_id,
                tool_name,
                is_error,
                ..
            }
            &&& tool_call_id == run.calls[i as int].id
            &&& tool_name == run.calls[i as int].name
            &&& is_error
        }),
        run.point == Point::TruncatedAppended(i) ==> ({
            let step = next(run, agent, InputModel::Published, cancelled);
            if i + 1 < run.calls.len() {
                step.run.point == Point::TruncatedStarted((i + 1) as usize)
            } else {
                step.run.point == Point::TurnEnded && !step.run.terminate && step.run.calls
                    == run.calls
            }
        }),
{
    reveal(next);
    reveal(resume);
    reveal(conclude);
    reveal(append);
    reveal(announce);
    reveal(end_turn);
    let step = next(run, agent, InputModel::Published, cancelled);
    if run.point == Point::TruncatedEnded(i) {
        assert(step.agent.state.messages.drop_last() =~= agent.state.messages);
    }
}

/// An announced call whose tool is registered is validated against the schema of that tool; one
/// that names no registered tool is answered with an error, and does not execute.
pub proof fn law_calls_meet_the_schema_of_their_tool(
    run: RunModel,
    agent: AgentModel,
    i: usize,
    cancelled: bool,
)
    requires
        run.point == Point::Started(i),
        run.outbox.len() == 0,
        i < run.calls.len(),
        i < run.slots.len(),
        distinct_names(agent.tools),
    ensures
        ({
            let step = next(run, agent, InputModel::Published, cancelled);
            let call = run.calls[i as int];
            &&& forall|j: int|
                0 <= j < agent.tools.len() && (#[trigger] agent.tools[j]).name == call.name
                    ==> step.action == (ActionModel::ValidateArguments {
                    call,
                    schema: agent.tools[j].schema,
                })
            &&& (forall|j: int|
                0 <= j < agent.tools.len() ==> (#[trigger] agent.tools[j]).name != call.name) ==> {
                &&& step.run.slots[i as int].result matches Some(result)
                &&& result.is_error
                &&& result.tool_call_id == call.id
                &&& result.content == "Tool "@ + call.name + " not found"@
                &&& !step.run.slots[i as int].terminate
                &&& step.run.running == run.running
                &&& step.action is Publish
            }
        }),
{
    reveal(next);
    reveal(resume);
    reveal(prepare);
    reveal(refuse);
    reveal(conclude);
    let name = run.calls[i as int].name;
    lemma_tool_index(agent.tools, name);
    let found = crate::tool::tool_index(agent.tools, name);
    assert forall|j: int|
        0 <= j < agent.tools.len() && (#[trigger] agent.tools[j]).name == name implies j
        == found by {
        if found < j {
            assert(agent.tools[found].name == name);
        }
    }
}

/// Valid arguments bring a call before the host, with the transcript as it stands; invalid ones
/// are answered with the text of the fault, and the call does not execute.
pub proof fn law_only_valid_calls_come_before_the_host(
    run: RunModel,
    agent: AgentModel,
    i: usize,
    verdict: Result<(), ToolErrorModel>,
    cancelled: bool,
)
    requires
        run.point == Point::Validating(i),
        run.outbox.len() == 0,
        i < run.calls.len(),
        i < run.slots.len(),
        owner(agent.state.phase) is Some,
    ensures
        ({
            let step = next(run, agent, InputModel::Validated(verdict), cancelled);
            let call = run.calls[i as int];
            match verdict {
                Ok(()) => step.action == (ActionModel::BeforeToolCall {
                    call,
                    context: ContextModel {
                        version: 1,
                        messages: agent.state.messages,
                        host_messages: agent.state.host_messages,
                    },
                }) && step.run.running == run.running,
                Err(error) => {
                    &&& step.run.slots[i as int].result matches Some(result)
                    &&& result.is_error
                    &&& result.tool_call_id == call.id
                    &&& error matches ToolErrorModel::InvalidArguments { message, .. }
                        ==> result.content == message
                    &&& !step.run.slots[i as int].terminate
                    &&& step.run.running == run.running
                    &&& !(step.action is BeforeToolCall)
                }
            }
        }),
{
    reveal(next);
    reveal(validated);
    reveal(refuse);
    reveal(conclude);
}

/// The decision of the host: an allowed call joins those that will be started, behind the others;
/// a call that is blocked, or whose hook fails, is answered with that reason as an error; a call
/// that terminates is answered likewise and asks to stop after its batch. A run that was asked to
/// stop starts no further call.
pub proof fn law_the_host_decides_what_executes(
    run: RunModel,
    agent: AgentModel,
    i: usize,
    decision: Result<BeforeModel, Seq<char>>,
    cancelled: bool,
)
    requires
        run.point == Point::Deciding(i),
        run.outbox.len() == 0,
        i < run.calls.len(),
        i < run.slots.len(),
        run.calls.len() <= usize::MAX,
    ensures
        ({
            let step = next(run, agent, InputModel::Before(decision), cancelled);
            let allowed = !cancelled && decision == Ok::<BeforeModel, Seq<char>>(
                BeforeModel::Allow,
            );
            if allowed {
                &&& step.run.running == run.running.push(i)
                &&& step.run.slots == run.slots
                &&& !run.parallel || i + 1 == run.calls.len() ==> step.action
                    == ActionModel::StartTools(run.running.push(i))
                &&& run.parallel && i + 1 < run.calls.len() ==> announces(
                    step,
                    seq![
                        EventKindModel::ToolExecutionStart {
                            tool_call_id: run.calls[i + 1].id,
                            tool_name: run.calls[i + 1].name,
                            arguments: run.calls[i + 1].arguments,
                        },
                    ],
                )
            } else {
                &&& step.run.running == run.running
                &&& step.run.slots[i as int].result matches Some(result)
                &&& result.is_error
                &&& result.tool_call_id == run.calls[i as int].id
                &&& decision matches Err(text) ==> result.content == text
                &&& decision matches Ok(BeforeModel::Block { reason }) ==> result.content == reason
                &&& decision matches Ok(BeforeModel::Terminate { reason }) ==> result.content
                    == reason
                &&& decision matches Ok(BeforeModel::Allow) ==> result.content
                    == "Operation aborted"@
                &&& step.run.slots[i as int].terminate == (decision matches Ok(
                    BeforeModel::Terminate { .. },
                ))
                &&& announces(
                    step,
                    seq![
                        EventKindModel::ToolExecutionEnd {
                            tool_call_id: run.calls[i as int].id,
                            tool_name: run.calls[i as int].name,
                            result,
                        },
                    ],
                )
                &&& forall|j: int|
                    0 <= j < run.slots.len() && j != i ==> #[trigger] step.run.slots[j]
                        == run.slots[j]
            }
        }),
{
    reveal(next);
    reveal(decided);
    reveal(refuse);
    reveal(conclude);
    reveal(announce_or_launch);
    reveal(announce);
    let step = next(run, agent, InputModel::Before(decision), cancelled);
    let allowed = !cancelled && decision == Ok::<BeforeModel, Seq<char>>(BeforeModel::Allow);
    if allowed {
        if run.parallel && i + 1 < run.calls.len() {
            assert(step.run.outbox =~= seq![
                EventKindModel::ToolExecutionStart {
                    tool_call_id: run.calls[i + 1].id,
                    tool_name: run.calls[i + 1].name,
                    arguments: run.calls[i + 1].arguments,
                },
            ].skip(1));
        }
    } else {
        assert(step.run.outbox =~= seq![
            EventKindModel::ToolExecutionEnd {
                tool_call_id: run.calls[i as int].id,
                tool_name: run.calls[i as int].name,
                result: step.run.slots[i as int].result->0,
            },
        ].skip(1));
    }
}

} // verus!
