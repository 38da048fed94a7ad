//! What a replayed fixture answers and reports, told by its parts.

use crate::event::{EventKindModel, EventModel};
use crate::fixture::{BlockModel, FixtureModel, ReplaceModel, ResponseModel, SpecModel};
use crate::hooks::{AfterModel, BeforeModel, Replacement};
use crate::json::{serde_from_str, Json, NumberModel};
use crate::parity::{
    blocks, call_parts, canonical, configured, defined_tools, left_after, normal_event,
    normal_message, normal_messages, recorded, replaces, response_index, result_of, turns_in,
    updates_of, with_run, ReportModel,
};
use crate::scripts::says;
use crate::state::{AgentSnapshot, CallModel, MessageModel, StopReason};
use crate::tool::{lemma_tool_index, tool_index, DefinitionModel};
use vstd::prelude::*;

verus! {

/// A rule blocks the calls of the tool it names, with its reason, and no others; another replaces
/// the text and the verdict of the results of the tool it names, and nothing else.
pub proof fn law_rules_touch_only_their_tool(
    block: Option<BlockModel>,
    replace: Option<ReplaceModel>,
    name: Seq<char>,
)
    ensures
        block is Some && block->0.tool_name == name ==> blocks(block, name) == (BeforeModel::Block {
            reason: block->0.reason,
        }),
        block is None || block->0.tool_name != name ==> blocks(block, name) is Allow,
        replace is Some && replace->0.tool_name == name ==> {
            let after = replaces(replace, name);
            &&& after.content == Replacement::Replace(replace->0.content)
            &&& after.is_error == Replacement::Replace(replace->0.is_error)
            &&& after.details is Keep
            &&& after.usage is Keep
            &&& after.added_tool_names is Keep
            &&& after.terminate is None
        },
        replace is None || replace->0.tool_name != name ==> replaces(replace, name)
            == AfterModel::keep_all(),
{
}

proof fn lemma_first(responses: Seq<ResponseModel>, arguments: Seq<char>)
    ensures
        0 <= response_index(responses, arguments) <= responses.len(),
        response_index(responses, arguments) < responses.len() ==> responses[response_index(
            responses,
            arguments,
        )].arguments == arguments,
        forall|j: int|
            0 <= j < response_index(responses, arguments) ==> (#[trigger] responses[j]).arguments
                != arguments,
    decreases responses.len(),
{
    if responses.len() > 0 && responses[0].arguments != arguments {
        let rest = responses.drop_first();
        lemma_first(rest, arguments);
        assert forall|j: int| 0 <= j < response_index(responses, arguments) implies (
        #[trigger] responses[j]).arguments != arguments by {
            if j > 0 {
                assert(rest[j - 1] == responses[j]);
            }
        }
    }
}

/// A call is answered by the first scripted answer to its arguments, which is then used up; the
/// others stay, in order. The result is the answer's text and verdict, under the call.
pub proof fn law_calls_get_the_first_matching_answer(
    responses: Seq<ResponseModel>,
    call: CallModel,
    i: int,
)
    requires
        0 <= i < responses.len(),
        responses[i].arguments == call.arguments,
        forall|j: int| 0 <= j < i ==> (#[trigger] responses[j]).arguments != call.arguments,
    ensures
        response_index(responses, call.arguments) == i,
        left_after(responses, call.arguments) == responses.take(i) + responses.skip(i + 1),
        ({
            let result = result_of(responses[i], call.id);
            &&& result.tool_call_id == call.id
            &&& result.content == responses[i].content
            &&& result.is_error == responses[i].is_error
            &&& !result.terminate
            &&& result.added_tool_names.len() == 0
        }),
        updates_of(responses[i].updates).len() == responses[i].updates.len(),
        forall|k: int|
            0 <= k < responses[i].updates.len() ==> (#[trigger] updates_of(
                responses[i].updates,
            )[k]).content == responses[i].updates[k],
{
    lemma_first(responses, call.arguments);
    let k = response_index(responses, call.arguments);
    if k < i {
        assert(responses[k].arguments != call.arguments);
    }
    if i < k {
        assert(responses[i].arguments != call.arguments);
    }
    assert(responses.remove(i) =~= responses.take(i) + responses.skip(i + 1));
}

/// Whether a definition is the one that a fixture's tool describes.
pub open spec fn defines(tool: SpecModel, definition: DefinitionModel) -> bool {
    &&& definition.name == tool.name
    &&& definition.description == tool.description
    &&& definition.execution_mode == tool.execution_mode
    &&& serde_from_str(tool.parameters) matches Ok(schema)
    &&& definition.schema == schema
}

/// The tools of a fixture, which have distinct names, are defined one for one and in order.
pub proof fn law_fixture_tools_are_defined_in_order(tools: Seq<SpecModel>)
    requires
        forall|i: int, j: int|
            0 <= i < j < tools.len() ==> (#[trigger] tools[i]).name != (#[trigger] tools[j]).name,
    ensures
        defined_tools(tools) matches Ok(definitions) ==> {
            &&& definitions.len() == tools.len()
            &&& forall|i: int|
                0 <= i < tools.len() ==> defines(#[trigger] tools[i], definitions[i])
        },
    decreases tools.len(),
{
    if tools.len() > 0 && defined_tools(tools) is Ok {
        let front = tools.drop_last();
        assert forall|i: int, j: int| 0 <= i < j < front.len() implies (#[trigger] front[i]).name
            != (#[trigger] front[j]).name by {
            assert(front[i] == tools[i] && front[j] == tools[j]);
        }
        law_fixture_tools_are_defined_in_order(front);
        let before = defined_tools(front)->Ok_0;
        let definitions = defined_tools(tools)->Ok_0;
        let last = tools.last();
        lemma_tool_index(before, last.name);
        let k = tool_index(before, last.name);
        if k < before.len() {
            assert(defines(front[k], before[k]));
            assert(tools[k].name != tools[tools.len() - 1].name);
        }
        assert forall|i: int| 0 <= i < tools.len() implies defines(
            #[trigger] tools[i],
            definitions[i],
        ) by {
            if i < front.len() {
                assert(front[i] == tools[i]);
                assert(definitions[i] == before[i]);
            }
        }
    }
}

/// The agent of a fixture is configured as the fixture says.
pub proof fn law_fixture_agents_are_configured_as_said(
    fixture: FixtureModel,
    tools: Seq<DefinitionModel>,
)
    ensures
        ({
            let builder = configured(fixture, tools);
            &&& builder.system_prompt == fixture.system_prompt
            &&& builder.model matches Some(model)
            &&& model.provider == fixture.provider
            &&& model.model == fixture.model
            &&& builder.thinking_level == fixture.thinking_level
            &&& builder.steering == fixture.steering_mode
            &&& builder.follow_up == fixture.follow_up_mode
            &&& builder.tools == tools
            &&& builder.provider
        }),
{
}

proof fn lemma_keys()
    ensures
        "seq"@ != "type"@,
        "seq"@ != "data"@,
        "type"@ != "data"@,
        "role"@ != "delta"@,
        "role"@ != "content"@,
        "delta"@ != "content"@,
        "tool_call_id"@ != "tool_name"@,
        "tool_call_id"@ != "is_error"@,
        "tool_call_id"@ != "content"@,
        "tool_name"@ != "is_error"@,
        "tool_name"@ != "content"@,
        "is_error"@ != "content"@,
        "type"@ != "id"@,
        "type"@ != "name"@,
        "type"@ != "arguments"@,
        "type"@ != "text"@,
        "id"@ != "name"@,
        "id"@ != "arguments"@,
        "id"@ != "text"@,
        "name"@ != "arguments"@,
        "name"@ != "text"@,
        "arguments"@ != "text"@,
        "agent_start"@ != "agent_end"@,
        "agent_start"@ != "turn_start"@,
        "agent_start"@ != "turn_end"@,
        "agent_start"@ != "message_start"@,
        "agent_start"@ != "message_update"@,
        "agent_start"@ != "message_end"@,
        "agent_start"@ != "tool_execution_start"@,
        "agent_start"@ != "tool_execution_update"@,
        "agent_start"@ != "tool_execution_end"@,
        "agent_end"@ != "turn_start"@,
        "agent_end"@ != "turn_end"@,
        "agent_end"@ != "message_start"@,
        "agent_end"@ != "message_update"@,
        "agent_end"@ != "message_end"@,
        "agent_end"@ != "tool_execution_start"@,
        "agent_end"@ != "tool_execution_update"@,
        "agent_end"@ != "tool_execution_end"@,
        "turn_start"@ != "turn_end"@,
        "turn_start"@ != "message_start"@,
        "turn_start"@ != "message_update"@,
        "turn_start"@ != "message_end"@,
        "turn_start"@ != "tool_execution_start"@,
        "turn_start"@ != "tool_execution_update"@,
        "turn_start"@ != "tool_execution_end"@,
        "turn_end"@ != "message_start"@,
        "turn_end"@ != "message_update"@,
        "turn_end"@ != "message_end"@,
        "turn_end"@ != "tool_execution_start"@,
        "turn_end"@ != "tool_execution_update"@,
        "turn_end"@ != "tool_execution_end"@,
        "message_start"@ != "message_update"@,
        "message_start"@ != "message_end"@,
        "message_start"@ != "tool_execution_start"@,
        "message_start"@ != "tool_execution_update"@,
        "message_start"@ != "tool_execution_end"@,
        "message_update"@ != "message_end"@,
        "message_update"@ != "tool_execution_start"@,
        "message_update"@ != "tool_execution_update"@,
        "message_update"@ != "tool_execution_end"@,
        "message_end"@ != "tool_execution_start"@,
        "message_end"@ != "tool_execution_update"@,
        "message_end"@ != "tool_execution_end"@,
        "tool_execution_start"@ != "tool_execution_update"@,
        "tool_execution_start"@ != "tool_execution_end"@,
        "tool_execution_update"@ != "tool_execution_end"@,
{
    reveal_strlit("seq");
    reveal_strlit("type");
    reveal_strlit("data");
    reveal_strlit("role");
    reveal_strlit("delta");
    reveal_strlit("content");
    reveal_strlit("tool_call_id");
    reveal_strlit("tool_name");
    reveal_strlit("is_error");
    reveal_strlit("id");
    reveal_strlit("name");
    reveal_strlit("arguments");
    reveal_strlit("text");
    reveal_strlit("agent_start");
    reveal_strlit("agent_end");
    reveal_strlit("turn_start");
    reveal_strlit("turn_end");
    reveal_strlit("message_start");
    reveal_strlit("message_update");
    reveal_strlit("message_end");
    reveal_strlit("tool_execution_start");
    reveal_strlit("tool_execution_update");
    reveal_strlit("tool_execution_end");
    assert("seq"@.len() == 3);
    assert("type"@.len() == 4);
    assert("data"@.len() == 4);
    assert("role"@.len() == 4);
    assert("delta"@.len() == 5);
    assert("content"@.len() == 7);
    assert("tool_call_id"@.len() == 12);
    assert("tool_name"@.len() == 9);
    assert("is_error"@.len() == 8);
    assert("id"@.len() == 2);
    assert("name"@.len() == 4);
    assert("arguments"@.len() == 9);
    assert("text"@.len() == 4);
    assert("agent_start"@.len() == 11);
    assert("agent_end"@.len() == 9);
    assert("turn_start"@.len() == 10);
    assert("turn_end"@.len() == 8);
    assert("message_start"@.len() == 13);
    assert("message_update"@.len() == 14);
    assert("message_end"@.len() == 11);
    assert("tool_execution_start"@.len() == 20);
    assert("tool_execution_update"@.len() == 21);
    assert("tool_execution_end"@.len() == 18);
    assert("type"@[0] != "data"@[0]);
    assert("type"@[0] != "name"@[0]);
    assert("type"@[1] != "text"@[1]);
    assert("name"@[0] != "text"@[0]);
    assert("agent_start"@[0] != "message_end"@[0]);
}

/// Whether a report of an event names a role.
pub open spec fn names_role(data: Json, message: MessageModel) -> bool {
    says(
        data,
        "role"@,
        if message is User {
            "user"@
        } else if message is Assistant {
            "assistant"@
        } else {
            "tool_result"@
        },
    )
}

/// Whether a report of an event names a call and its tool.
pub open spec fn names_call(data: Json, id: Seq<char>, name: Seq<char>) -> bool {
    says(data, "tool_call_id"@, id) && says(data, "tool_name"@, name)
}

/// An event is reported under its number, with the name of its kind, and with what tells it
/// apart: the turn, the role of a message, the call and the tool, and the text of an update.
pub proof fn law_events_are_reported_as_what_they_are(
    sequence: nat,
    kind: EventKindModel,
    offset: u64,
)
    ensures
        normal_event(sequence, kind, offset) matches Ok(event) ==> {
            &&& event.get("seq"@) == Some(Json::Number(NumberModel::Int(sequence as int)))
            &&& says(event, "type"@, "agent_start"@) <==> kind is AgentStart
            &&& says(event, "type"@, "agent_end"@) <==> kind is AgentEnd
            &&& says(event, "type"@, "turn_start"@) <==> kind is TurnStart
            &&& says(event, "type"@, "turn_end"@) <==> kind is TurnEnd
            &&& says(event, "type"@, "message_start"@) <==> kind is MessageStart
            &&& says(event, "type"@, "message_update"@) <==> kind is MessageUpdate
            &&& says(event, "type"@, "message_end"@) <==> kind is MessageEnd
            &&& says(event, "type"@, "tool_execution_start"@) <==> kind is ToolExecutionStart
            &&& says(event, "type"@, "tool_execution_update"@) <==> kind is ToolExecutionUpdate
            &&& says(event, "type"@, "tool_execution_end"@) <==> kind is ToolExecutionEnd
            &&& event.get("data"@) matches Some(data)
            &&& match kind {
                EventKindModel::TurnStart { turn_id } => 1 <= turn_id.0 && offset + turn_id.0
                    <= u64::MAX ==> data.get("turn"@) == Some(
                    Json::Number(NumberModel::Int(offset + turn_id.0 - 1)),
                ),
                EventKindModel::TurnEnd { reason, .. } => {
                    &&& reason == StopReason::EndTurn ==> says(data, "stop_reason"@, "stop"@)
                    &&& reason == StopReason::ToolUse ==> says(data, "stop_reason"@, "tool_call"@)
                    &&& reason == StopReason::Length ==> says(data, "stop_reason"@, "length"@)
                    &&& reason == StopReason::Aborted ==> says(data, "stop_reason"@, "aborted"@)
                    &&& reason == StopReason::Cancelled ==> says(
                        data,
                        "stop_reason"@,
                        "cancelled"@,
                    )
                    &&& reason == StopReason::Error ==> says(data, "stop_reason"@, "error"@)
                },
                EventKindModel::MessageStart { message } => names_role(data, message),
                EventKindModel::MessageEnd { message } => names_role(data, message),
                EventKindModel::MessageUpdate { message, .. } => names_role(data, message) && (
                message matches MessageModel::Assistant { content, .. } ==> says(
                    data,
                    "delta"@,
                    content,
                )),
                EventKindModel::ToolExecutionStart { tool_call_id, tool_name, .. } => names_call(
                    data,
                    tool_call_id,
                    tool_name,
                ),
                EventKindModel::ToolExecutionUpdate { tool_call_id, tool_name, update } =>
                    names_call(data, tool_call_id, tool_name) && says(
                    data,
                    "content"@,
                    update.content,
                ),
                EventKindModel::ToolExecutionEnd { tool_call_id, tool_name, result } => names_call(
                    data,
                    tool_call_id,
                    tool_name,
                ) && data.get("is_error"@) == Some(Json::Bool(result.is_error)),
                _ => true,
            }
        },
        kind is ModelTurnUsage || kind is CompactionStart || kind is CompactionResult || kind
            is CompactionEnd <==> normal_event(sequence, kind, offset) is Err,
{
    lemma_keys();
}

/// The events of a run are reported behind those before it, one for one and in order.
pub proof fn law_runs_are_reported_in_order(events: Seq<Json>, run: Seq<EventModel>, offset: u64)
    ensures
        with_run(events, run, offset) matches Ok(all) ==> {
            &&& all.len() == events.len() + run.len()
            &&& forall|i: int| 0 <= i < events.len() ==> #[trigger] all[i] == events[i]
            &&& forall|i: int|
                0 <= i < run.len() ==> normal_event(
                    (events.len() + i) as nat,
                    (#[trigger] run[i]).kind,
                    offset,
                ) == Ok::<Json, Seq<char>>(all[events.len() + i])
        },
    decreases run.len(),
{
    if run.len() > 0 && with_run(events, run, offset) is Ok {
        law_runs_are_reported_in_order(events, run.drop_last(), offset);
        let all = with_run(events, run, offset)->Ok_0;
        let before = with_run(events, run.drop_last(), offset)->Ok_0;
        assert forall|i: int| 0 <= i < run.len() implies normal_event(
            (events.len() + i) as nat,
            (#[trigger] run[i]).kind,
            offset,
        ) == Ok::<Json, Seq<char>>(all[events.len() + i]) by {
            if i < run.len() - 1 {
                assert(run.drop_last()[i] == run[i]);
                assert(all[events.len() + i] == before[events.len() + i]);
            }
        }
    }
}

/// The turns of a run are counted one by one, and a report counts those of all its runs.
pub proof fn law_turns_are_counted(report: ReportModel, run: Seq<EventModel>, event: EventModel)
    ensures
        turns_in(Seq::empty()) == 0,
        turns_in(run.push(event)) == turns_in(run) + if event.kind is TurnStart {
            1int
        } else {
            0
        },
        recorded(report, run) matches Ok(after) ==> {
            &&& with_run(report.events, run, report.turns) == Ok::<Seq<Json>, Seq<char>>(
                after.events,
            )
            &&& report.turns + turns_in(run) <= u64::MAX ==> after.turns == report.turns + turns_in(
                run,
            )
        },
{
    assert(run.push(event).drop_last() =~= run);
}

proof fn lemma_call_parts(calls: Seq<CallModel>)
    ensures
        call_parts(calls) matches Ok(parts) ==> {
            &&& parts.len() == calls.len()
            &&& forall|i: int|
                0 <= i < calls.len() ==> part_calls(parts[i], #[trigger] calls[i])
        },
    decreases calls.len(),
{
    lemma_keys();
    if calls.len() > 0 && call_parts(calls) is Ok {
        lemma_call_parts(calls.drop_last());
        let parts = call_parts(calls)->Ok_0;
        let before = call_parts(calls.drop_last())->Ok_0;
        assert forall|i: int| 0 <= i < calls.len() implies part_calls(
            parts[i],
            #[trigger] calls[i],
        ) by {
            if i < calls.len() - 1 {
                assert(calls.drop_last()[i] == calls[i]);
                assert(parts[i] == before[i]);
            }
        }
    }
}

/// Whether a part of a message asks for a call.
pub open spec fn part_calls(part: Json, call: CallModel) -> bool {
    &&& says(part, "type"@, "tool_call"@)
    &&& says(part, "id"@, call.id)
    &&& says(part, "name"@, call.name)
    &&& serde_from_str(call.arguments) matches Ok(arguments)
    &&& part.get("arguments"@) == Some(arguments)
}

/// Whether a part of a message is a text.
pub open spec fn part_says(part: Json, text: Seq<char>) -> bool {
    says(part, "type"@, "text"@) && says(part, "text"@, text)
}

/// A message is reported with its role and its content: its text, which an assistant may leave
/// out, and then the calls of the assistant in order.
pub proof fn law_messages_are_reported_whole(message: MessageModel)
    ensures
        normal_message(message) matches Ok(form) ==> {
            &&& names_role(form, message)
            &&& form.get("content"@) matches Some(Json::Array(parts))
            &&& match message {
                MessageModel::User { content, .. } => parts.len() == 1 && part_says(
                    parts[0],
                    content,
                ),
                MessageModel::ToolResult { content, .. } => parts.len() == 1 && part_says(
                    parts[0],
                    content,
                ),
                MessageModel::Assistant { content, tool_calls, .. } => {
                    let ahead = if content.len() > 0 {
                        1int
                    } else {
                        0
                    };
                    &&& parts.len() == ahead + tool_calls.len()
                    &&& content.len() > 0 ==> part_says(parts[0], content)
                    &&& forall|i: int|
                        0 <= i < tool_calls.len() ==> part_calls(
                            parts[ahead + i],
                            #[trigger] tool_calls[i],
                        )
                },
            }
        },
        !(message is Assistant) ==> normal_message(message) is Ok,
{
    lemma_keys();
    if let MessageModel::Assistant { content, tool_calls, .. } = message {
        lemma_call_parts(tool_calls);
        if normal_message(message) is Ok {
            let calls = call_parts(tool_calls)->Ok_0;
            let parts = crate::parity::message_parts(message)->Ok_0;
            let ahead = if content.len() > 0 {
                1int
            } else {
                0
            };
            assert forall|i: int| 0 <= i < tool_calls.len() implies part_calls(
                parts[ahead + i],
                #[trigger] tool_calls[i],
            ) by {
                assert(parts[ahead + i] == calls[i]);
            }
        }
    }
}

/// Messages are reported one for one and in order.
pub proof fn law_messages_are_reported_in_order(messages: Seq<MessageModel>)
    ensures
        normal_messages(messages) matches Ok(forms) ==> {
            &&& forms.len() == messages.len()
            &&& forall|i: int|
                0 <= i < messages.len() ==> normal_message(#[trigger] messages[i]) == Ok::<
                    Json,
                    Seq<char>,
                >(forms[i])
        },
    decreases messages.len(),
{
    if messages.len() > 0 && normal_messages(messages) is Ok {
        law_messages_are_reported_in_order(messages.drop_last());
        let forms = normal_messages(messages)->Ok_0;
        let before = normal_messages(messages.drop_last())->Ok_0;
        assert forall|i: int| 0 <= i < messages.len() implies normal_message(
            #[trigger] messages[i],
        ) == Ok::<Json, Seq<char>>(forms[i]) by {
            if i < messages.len() - 1 {
                assert(messages.drop_last()[i] == messages[i]);
                assert(forms[i] == before[i]);
            }
        }
    }
}

proof fn lemma_result_keys()
    ensures
        "format_version"@ != "kind"@,
        "format_version"@ != "fixture_id"@,
        "format_version"@ != "outcome"@,
        "format_version"@ != "settled"@,
        "format_version"@ != "state"@,
        "format_version"@ != "events"@,
        "format_version"@ != "messages"@,
        "format_version"@ != "last_response"@,
        "format_version"@ != "usage"@,
        "format_version"@ != "error"@,
        "kind"@ != "fixture_id"@,
        "kind"@ != "outcome"@,
        "kind"@ != "settled"@,
        "kind"@ != "state"@,
        "kind"@ != "events"@,
        "kind"@ != "messages"@,
        "kind"@ != "last_response"@,
        "kind"@ != "usage"@,
        "kind"@ != "error"@,
        "fixture_id"@ != "outcome"@,
        "fixture_id"@ != "settled"@,
        "fixture_id"@ != "state"@,
        "fixture_id"@ != "events"@,
        "fixture_id"@ != "messages"@,
        "fixture_id"@ != "last_response"@,
        "fixture_id"@ != "usage"@,
        "fixture_id"@ != "error"@,
        "outcome"@ != "settled"@,
        "outcome"@ != "state"@,
        "outcome"@ != "events"@,
        "outcome"@ != "messages"@,
        "outcome"@ != "last_response"@,
        "outcome"@ != "usage"@,
        "outcome"@ != "error"@,
        "settled"@ != "state"@,
        "settled"@ != "events"@,
        "settled"@ != "messages"@,
        "settled"@ != "last_response"@,
        "settled"@ != "usage"@,
        "settled"@ != "error"@,
        "state"@ != "events"@,
        "state"@ != "messages"@,
        "state"@ != "last_response"@,
        "state"@ != "usage"@,
        "state"@ != "error"@,
        "events"@ != "messages"@,
        "events"@ != "last_response"@,
        "events"@ != "usage"@,
        "events"@ != "error"@,
        "messages"@ != "last_response"@,
        "messages"@ != "usage"@,
        "messages"@ != "error"@,
        "last_response"@ != "usage"@,
        "last_response"@ != "error"@,
        "usage"@ != "error"@,
        "system_prompt"@ != "model"@,
        "system_prompt"@ != "thinking_level"@,
        "system_prompt"@ != "tool_names"@,
        "system_prompt"@ != "pending_tool_calls"@,
        "model"@ != "thinking_level"@,
        "model"@ != "tool_names"@,
        "model"@ != "pending_tool_calls"@,
        "thinking_level"@ != "tool_names"@,
        "thinking_level"@ != "pending_tool_calls"@,
        "tool_names"@ != "pending_tool_calls"@,
        "provider"@ != "id"@,
        "input"@ != "output"@,
        "input"@ != "cache_read"@,
        "input"@ != "cache_write"@,
        "input"@ != "total_tokens"@,
        "output"@ != "cache_read"@,
        "output"@ != "cache_write"@,
        "output"@ != "total_tokens"@,
        "cache_read"@ != "cache_write"@,
        "cache_read"@ != "total_tokens"@,
        "cache_write"@ != "total_tokens"@,
        "api"@ != "stop_reason"@,
{
    reveal_strlit("format_version");
    reveal_strlit("kind");
    reveal_strlit("fixture_id");
    reveal_strlit("outcome");
    reveal_strlit("settled");
    reveal_strlit("state");
    reveal_strlit("events");
    reveal_strlit("messages");
    reveal_strlit("last_response");
    reveal_strlit("usage");
    reveal_strlit("error");
    reveal_strlit("system_prompt");
    reveal_strlit("model");
    reveal_strlit("thinking_level");
    reveal_strlit("tool_names");
    reveal_strlit("pending_tool_calls");
    reveal_strlit("provider");
    reveal_strlit("id");
    reveal_strlit("input");
    reveal_strlit("output");
    reveal_strlit("cache_read");
    reveal_strlit("cache_write");
    reveal_strlit("total_tokens");
    reveal_strlit("api");
    reveal_strlit("stop_reason");
    assert("format_version"@.len() == 14);
    assert("kind"@.len() == 4);
    assert("fixture_id"@.len() == 10);
    assert("outcome"@.len() == 7);
    assert("settled"@.len() == 7);
    assert("state"@.len() == 5);
    assert("events"@.len() == 6);
    assert("messages"@.len() == 8);
    assert("last_response"@.len() == 13);
    assert("usage"@.len() == 5);
    assert("error"@.len() == 5);
    assert("system_prompt"@.len() == 13);
    assert("model"@.len() == 5);
    assert("thinking_level"@.len() == 14);
    assert("tool_names"@.len() == 10);
    assert("pending_tool_calls"@.len() == 18);
    assert("provider"@.len() == 8);
    assert("id"@.len() == 2);
    assert("input"@.len() == 5);
    assert("output"@.len() == 6);
    assert("cache_read"@.len() == 10);
    assert("cache_write"@.len() == 11);
    assert("total_tokens"@.len() == 12);
    assert("api"@.len() == 3);
    assert("stop_reason"@.len() == 11);
    assert("outcome"@[0] != "settled"@[0]);
    assert("state"@[0] != "usage"@[0]);
    assert("state"@[0] != "error"@[0]);
    assert("usage"@[0] != "error"@[0]);
}

/// The result of a fixture names it and holds its events, behind which it is settled, the whole
/// conversation, the usage of its last turn, and the agent's own prompt. An agent that has not
/// settled, or a script that was not used up, gives none.
pub proof fn law_results_hold_the_whole_replay(
    fixture: FixtureModel,
    snapshot: AgentSnapshot,
    events: Seq<Json>,
    exhausted: bool,
)
    ensures
        canonical(fixture, snapshot, events, exhausted) matches Ok(result) ==> {
            &&& exhausted
            &&& crate::parity::quiet(snapshot)
            &&& says(result, "fixture_id"@, fixture.id)
            &&& result.get("events"@) matches Some(Json::Array(told))
            &&& told.len() == events.len() + 1
            &&& forall|i: int| 0 <= i < events.len() ==> told[i] == #[trigger] events[i]
            &&& says(told.last(), "type"@, "agent_settled"@)
            &&& result.get("messages"@) matches Some(Json::Array(messages))
            &&& normal_messages(crate::model::views(snapshot.messages@)) == Ok::<
                Seq<Json>,
                Seq<char>,
            >(messages)
            &&& result.get("state"@) matches Some(state)
            &&& says(state, "system_prompt"@, snapshot.system_prompt@)
            &&& state.get("model"@) matches Some(model)
            &&& says(model, "provider"@, fixture.provider)
            &&& says(model, "id"@, fixture.model)
            &&& state.get("tool_names"@) matches Some(Json::Array(names))
            &&& names.len() == fixture.tools.len()
            &&& forall|i: int|
                0 <= i < fixture.tools.len() ==> names[i] == Json::String(
                    (#[trigger] fixture.tools[i]).name,
                )
            &&& result.get("usage"@) matches Some(usage)
            &&& usage.get("input"@) == Some(
                Json::Number(NumberModel::Int(fixture.turns.last().usage.input as int)),
            )
            &&& usage.get("output"@) == Some(
                Json::Number(NumberModel::Int(fixture.turns.last().usage.output as int)),
            )
            &&& usage.get("cache_read"@) == Some(
                Json::Number(NumberModel::Int(fixture.turns.last().usage.cache_read as int)),
            )
            &&& usage.get("cache_write"@) == Some(
                Json::Number(NumberModel::Int(fixture.turns.last().usage.cache_write as int)),
            )
            &&& usage.get("total_tokens"@) == Some(
                Json::Number(NumberModel::Int(fixture.turns.last().usage.total_tokens as int)),
            )
        },
        exhausted && crate::parity::quiet(snapshot) && normal_messages(
            crate::model::views(snapshot.messages@),
        ) is Ok ==> canonical(fixture, snapshot, events, exhausted) is Ok,
{
    lemma_result_keys();
    lemma_keys();
}

} // verus!
