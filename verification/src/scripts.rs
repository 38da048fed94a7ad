//! What a fixture says: told by the members of its text.

use crate::fixture::{
    collected, read_action, read_actions, read_block, read_chunk, read_host_tools, read_queue_mode,
    read_replace, read_response, read_responses, read_root, read_script, read_setup_tools,
    read_stop_reason, read_thinking_level, read_tools, read_turn, read_updates, responses_of,
    ActionModel, HostToolModel, Read, ResponseModel,
};
use crate::json::{member, serde_to_string, Json, NumberModel};
use crate::queue::QueueMode;
use crate::scheduler::StreamEventModel;
use crate::state::{StopReason, ThinkingLevel};
use crate::tool::ToolExecutionMode;
use vstd::prelude::*;

verus! {

proof fn lemma_words()
    ensures
        "steer"@ != "follow_up"@,
        "steer"@ != "prompt"@,
        "steer"@ != "continue"@,
        "follow_up"@ != "prompt"@,
        "follow_up"@ != "continue"@,
        "prompt"@ != "continue"@,
        "all"@ != "one-at-a-time"@,
        "off"@ != "low"@,
        "off"@ != "medium"@,
        "off"@ != "high"@,
        "low"@ != "medium"@,
        "low"@ != "high"@,
        "medium"@ != "high"@,
        "stop"@ != "tool_call"@,
        "text_delta"@ != "tool_call"@,
        "text_delta"@ != "done"@,
        "tool_call"@ != "done"@,
        "parallel"@ != "sequential"@,
{
    reveal_strlit("steer");
    reveal_strlit("follow_up");
    reveal_strlit("prompt");
    reveal_strlit("continue");
    reveal_strlit("all");
    reveal_strlit("one-at-a-time");
    reveal_strlit("off");
    reveal_strlit("low");
    reveal_strlit("medium");
    reveal_strlit("high");
    reveal_strlit("stop");
    reveal_strlit("tool_call");
    reveal_strlit("text_delta");
    reveal_strlit("done");
    reveal_strlit("parallel");
    reveal_strlit("sequential");
    assert("steer"@.len() == 5);
    assert("follow_up"@.len() == 9);
    assert("prompt"@.len() == 6);
    assert("continue"@.len() == 8);
    assert("all"@.len() == 3);
    assert("one-at-a-time"@.len() == 13);
    assert("off"@.len() == 3);
    assert("low"@.len() == 3);
    assert("medium"@.len() == 6);
    assert("high"@.len() == 4);
    assert("stop"@.len() == 4);
    assert("tool_call"@.len() == 9);
    assert("text_delta"@.len() == 10);
    assert("done"@.len() == 4);
    assert("parallel"@.len() == 8);
    assert("sequential"@.len() == 10);
    assert("off"@[0] != "low"@[0]);
}

/// Items are read one for one and in order, each by its place.
pub proof fn law_items_are_read_in_order<T>(items: Seq<Json>, read: spec_fn(Json, nat) -> Read<T>)
    ensures
        collected(items, read) matches Ok(values) ==> {
            &&& values.len() == items.len()
            &&& forall|i: int|
                0 <= i < items.len() ==> read(#[trigger] items[i], i as nat) == Ok::<T, Seq<char>>(
                    values[i],
                )
        },
    decreases items.len(),
{
    if items.len() > 0 && collected(items, read) is Ok {
        law_items_are_read_in_order(items.drop_last(), read);
        let values = collected(items, read)->Ok_0;
        let before = collected(items.drop_last(), read)->Ok_0;
        assert forall|i: int| 0 <= i < items.len() implies read(#[trigger] items[i], i as nat)
            == Ok::<T, Seq<char>>(values[i]) by {
            if i < items.len() - 1 {
                assert(items.drop_last()[i] == items[i]);
                assert(values[i] == before[i]);
            }
        }
    }
}

/// Whether a member is a text.
pub open spec fn says(object: Json, key: Seq<char>, text: Seq<char>) -> bool {
    object.get(key) == Some(Json::String(text))
}

/// An action is the one that its kind names, with its text where it has one.
pub proof fn law_actions_are_what_they_name(value: Json)
    ensures
        read_action(value) matches Ok(action) ==> match action {
            ActionModel::Steer(text) => says(value, "kind"@, "steer"@) && says(value, "text"@, text),
            ActionModel::FollowUp(text) => says(value, "kind"@, "follow_up"@) && says(
                value,
                "text"@,
                text,
            ),
            ActionModel::Prompt(text) => says(value, "kind"@, "prompt"@) && says(
                value,
                "text"@,
                text,
            ),
            ActionModel::Continue => says(value, "kind"@, "continue"@),
        },
        forall|text: Seq<char>|
            #![trigger says(value, "text"@, text)]
            says(value, "text"@, text) ==> {
                &&& says(value, "kind"@, "steer"@) ==> read_action(value) == Ok::<
                    ActionModel,
                    Seq<char>,
                >(ActionModel::Steer(text))
                &&& says(value, "kind"@, "follow_up"@) ==> read_action(value) == Ok::<
                    ActionModel,
                    Seq<char>,
                >(ActionModel::FollowUp(text))
                &&& says(value, "kind"@, "prompt"@) ==> read_action(value) == Ok::<
                    ActionModel,
                    Seq<char>,
                >(ActionModel::Prompt(text))
            },
        says(value, "kind"@, "continue"@) ==> read_action(value) == Ok::<ActionModel, Seq<char>>(
            ActionModel::Continue,
        ),
{
    lemma_words();
}

/// Actions are read in order.
pub proof fn law_actions_are_read_in_order(value: Json)
    ensures
        read_actions(value) matches Ok(actions) ==> {
            &&& value matches Json::Array(items)
            &&& items.len() == actions.len()
            &&& items.len() > 0
            &&& forall|i: int|
                0 <= i < items.len() ==> read_action(#[trigger] items[i]) == Ok::<
                    ActionModel,
                    Seq<char>,
                >(actions[i])
        },
{
    if let Json::Array(items) = value {
        law_items_are_read_in_order(items, |v: Json, i: nat| read_action(v));
        if read_actions(value) is Ok {
            let read = |v: Json, i: nat| read_action(v);
            let actions = read_actions(value)->Ok_0;
            assert forall|i: int| 0 <= i < items.len() implies read_action(#[trigger] items[i])
                == Ok::<ActionModel, Seq<char>>(actions[i]) by {
                assert(read(items[i], i as nat) == Ok::<ActionModel, Seq<char>>(actions[i]));
            }
        }
    }
}

/// Queue modes, thinking levels and stop reasons are those that their words name; a queue that
/// names no mode is drained one message at a time.
pub proof fn law_settings_are_what_they_name(word: Seq<char>)
    ensures
        read_queue_mode(None) == Ok::<QueueMode, Seq<char>>(QueueMode::OneAtATime),
        read_queue_mode(Some(Json::String(word))) == Ok::<QueueMode, Seq<char>>(QueueMode::All)
            <==> word == "all"@,
        read_queue_mode(Some(Json::String(word))) == Ok::<QueueMode, Seq<char>>(
            QueueMode::OneAtATime,
        ) <==> word == "one-at-a-time"@,
        read_thinking_level(word) == Ok::<ThinkingLevel, Seq<char>>(ThinkingLevel::Off) <==> word
            == "off"@,
        read_thinking_level(word) == Ok::<ThinkingLevel, Seq<char>>(ThinkingLevel::Low) <==> word
            == "low"@,
        read_thinking_level(word) == Ok::<ThinkingLevel, Seq<char>>(ThinkingLevel::Medium)
            <==> word == "medium"@,
        read_thinking_level(word) == Ok::<ThinkingLevel, Seq<char>>(ThinkingLevel::High) <==> word
            == "high"@,
        read_stop_reason(word) == Ok::<StopReason, Seq<char>>(StopReason::EndTurn) <==> word
            == "stop"@,
        read_stop_reason(word) == Ok::<StopReason, Seq<char>>(StopReason::ToolUse) <==> word
            == "tool_call"@,
{
    lemma_words();
}

/// A chunk of a script is the event that its kind names. Text and calls stand before the last
/// chunk, which says why the turn ends and what it used.
pub proof fn law_chunks_are_what_they_name(value: Json, index: nat, count: nat, turn: nat)
    ensures
        read_chunk(value, index, count, turn) matches Ok(chunk) ==> match chunk.event {
            StreamEventModel::TextDelta(text) => index + 1 < count && says(
                value,
                "kind"@,
                "text_delta"@,
            ) && says(value, "text"@, text) && chunk.usage is None,
            StreamEventModel::ToolCall(call) => {
                &&& index + 1 < count
                &&& says(value, "kind"@, "tool_call"@)
                &&& says(value, "id"@, call.id)
                &&& call.id.len() > 0
                &&& says(value, "name"@, call.name)
                &&& value.get("arguments"@) matches Some(arguments)
                &&& call.arguments == serde_to_string(arguments)
                &&& chunk.usage is None
            },
            StreamEventModel::End(reason) => {
                &&& index + 1 == count
                &&& says(value, "kind"@, "done"@)
                &&& reason == StopReason::EndTurn ==> says(value, "stop_reason"@, "stop"@)
                &&& reason == StopReason::ToolUse ==> says(value, "stop_reason"@, "tool_call"@)
                &&& value.get("usage"@) matches Some(report)
                &&& chunk.usage matches Some(usage)
                &&& report.get("input"@) == Some(Json::Number(NumberModel::Int(usage.input as int)))
                &&& report.get("output"@) == Some(
                    Json::Number(NumberModel::Int(usage.output as int)),
                )
                &&& report.get("cache_read"@) == Some(
                    Json::Number(NumberModel::Int(usage.cache_read as int)),
                )
                &&& report.get("cache_write"@) == Some(
                    Json::Number(NumberModel::Int(usage.cache_write as int)),
                )
                &&& report.get("total_tokens"@) == Some(
                    Json::Number(NumberModel::Int(usage.total_tokens as int)),
                )
            },
            _ => false,
        },
{
    lemma_words();
}

/// A turn of a script streams the event of each of its chunks, in order, and ends as the last of
/// them says.
pub proof fn law_turns_stream_their_chunks(value: Json, turn: nat)
    ensures
        read_turn(value, turn) matches Ok(script) ==> {
            &&& value.get("chunks"@) matches Some(Json::Array(chunks))
            &&& chunks.len() > 0
            &&& script.events.len() == chunks.len()
            &&& forall|i: int|
                0 <= i < chunks.len() ==> (read_chunk(
                    #[trigger] chunks[i],
                    i as nat,
                    chunks.len(),
                    turn,
                ) matches Ok(chunk) && chunk.event == script.events[i])
            &&& script.events.last() == StreamEventModel::End(script.reason)
        },
{
    if let Some(Json::Array(chunks)) = value.get("chunks"@) {
        let read = |v: Json, i: nat| read_chunk(v, i, chunks.len(), turn);
        law_items_are_read_in_order(chunks, read);
        if read_turn(value, turn) is Ok {
            let script = read_turn(value, turn)->Ok_0;
            let parts = collected(chunks, read)->Ok_0;
            assert forall|i: int| 0 <= i < chunks.len() implies (read_chunk(
                #[trigger] chunks[i],
                i as nat,
                chunks.len(),
                turn,
            ) matches Ok(chunk) && chunk.event == script.events[i]) by {
                assert(read(chunks[i], i as nat) == Ok::<_, Seq<char>>(parts[i]));
            }
            let last = chunks.len() - 1;
            assert(read(chunks[last], last as nat) == Ok::<_, Seq<char>>(parts[last]));
            law_chunks_are_what_they_name(chunks[last], last as nat, chunks.len(), turn);
        }
    }
}

/// The scripted answer of a tool is what it says: the text of its one part, whether it is an
/// error, the arguments it answers, and its updates in order.
pub proof fn law_answers_are_what_they_say(value: Json)
    ensures
        read_response(value) matches Ok(response) ==> {
            &&& value.get("arguments"@) matches Some(arguments)
            &&& response.arguments == serde_to_string(arguments)
            &&& value.get("result"@) matches Some(result)
            &&& result.get("content"@) matches Some(Json::Array(parts))
            &&& parts.len() == 1
            &&& says(parts[0], "type"@, "text"@)
            &&& says(parts[0], "text"@, response.content)
            &&& result.get("is_error"@) == Some(Json::Bool(response.is_error))
            &&& value.get("yield_once"@) is None ==> !response.yield_once
            &&& value.get("yield_once"@) is Some ==> value.get("yield_once"@) == Some(
                Json::Bool(response.yield_once),
            )
            &&& read_updates(value.get("updates"@)) == Ok::<Seq<Seq<char>>, Seq<char>>(
                response.updates,
            )
        },
        read_updates(None) == Ok::<Seq<Seq<char>>, Seq<char>>(Seq::empty()),
        forall|items: Seq<Json>|
            (#[trigger] read_updates(Some(Json::Array(items)))) matches Ok(updates) ==> {
                &&& updates.len() == items.len()
                &&& forall|i: int|
                    0 <= i < items.len() ==> #[trigger] items[i] == Json::String(updates[i])
            },
{
    assert forall|items: Seq<Json>|
        (#[trigger] read_updates(Some(Json::Array(items)))) is Ok implies ({
        let updates = read_updates(Some(Json::Array(items)))->Ok_0;
        &&& updates.len() == items.len()
        &&& forall|i: int| 0 <= i < items.len() ==> #[trigger] items[i] == Json::String(updates[i])
    }) by {
        let read = |v: Json, i: nat| crate::fixture::read_update(v, i);
        law_items_are_read_in_order(items, read);
        let updates = read_updates(Some(Json::Array(items)))->Ok_0;
        assert forall|i: int| 0 <= i < items.len() implies #[trigger] items[i] == Json::String(
            updates[i],
        ) by {
            assert(read(items[i], i as nat) == Ok::<_, Seq<char>>(updates[i]));
        }
    }
}

/// The tools of a fixture are read one for one and in order, each with its name, description and
/// parameters, the mode it names, and the answers that the host scripts under its name. A tool
/// that names no mode runs in parallel.
pub proof fn law_fixture_tools_are_what_they_say(entries: Seq<Json>, host: Seq<HostToolModel>)
    ensures
        read_setup_tools(entries, host) matches Ok(tools) ==> {
            &&& tools.len() == entries.len()
            &&& forall|i: int|
                0 <= i < entries.len() ==> tool_said(#[trigger] entries[i], tools[i], host)
        },
    decreases entries.len(),
{
    lemma_words();
    if entries.len() > 0 && read_setup_tools(entries, host) is Ok {
        law_fixture_tools_are_what_they_say(entries.drop_last(), host);
        let tools = read_setup_tools(entries, host)->Ok_0;
        let before = read_setup_tools(entries.drop_last(), host)->Ok_0;
        assert forall|i: int| 0 <= i < entries.len() implies tool_said(
            #[trigger] entries[i],
            tools[i],
            host,
        ) by {
            if i < entries.len() - 1 {
                assert(entries.drop_last()[i] == entries[i]);
                assert(tools[i] == before[i]);
            }
        }
    }
}

/// Whether an entry says what a tool is.
pub open spec fn tool_said(
    entry: Json,
    tool: crate::fixture::SpecModel,
    host: Seq<HostToolModel>,
) -> bool {
    &&& says(entry, "name"@, tool.name)
    &&& says(entry, "description"@, tool.description)
    &&& entry.get("parameters"@) matches Some(parameters)
    &&& tool.parameters == serde_to_string(parameters)
    &&& tool.execution_mode == ToolExecutionMode::Sequential <==> says(
        entry,
        "execution_mode"@,
        "sequential"@,
    )
    &&& tool.execution_mode == ToolExecutionMode::Parallel <==> says(
        entry,
        "execution_mode"@,
        "parallel"@,
    ) || entry.get("execution_mode"@) is None
    &&& match responses_of(host, tool.name) {
        Some(responses) => tool.responses == responses,
        None => tool.responses.len() == 0,
    }
}

/// The scripted tools of a host are read one for one and in order, and each name leads to its own
/// answers.
pub proof fn law_host_tools_are_found_by_name(entries: Seq<Json>)
    ensures
        read_host_tools(entries) matches Ok(tools) ==> {
            &&& tools.len() == entries.len()
            &&& forall|i: int|
                0 <= i < entries.len() ==> {
                    &&& says(#[trigger] entries[i], "name"@, tools[i].name)
                    &&& entries[i].get("calls"@) matches Some(Json::Array(calls))
                    &&& read_responses(calls) == Ok::<Seq<ResponseModel>, Seq<char>>(
                        tools[i].responses,
                    )
                }
            &&& forall|i: int|
                0 <= i < tools.len() ==> responses_of(tools, (#[trigger] tools[i]).name) == Some(
                    tools[i].responses,
                )
        },
    decreases entries.len(),
{
    if entries.len() > 0 && read_host_tools(entries) is Ok {
        law_host_tools_are_found_by_name(entries.drop_last());
        let tools = read_host_tools(entries)->Ok_0;
        let before = read_host_tools(entries.drop_last())->Ok_0;
        assert(tools.drop_last() =~= before);
        assert forall|i: int| 0 <= i < entries.len() implies ({
            &&& says(#[trigger] entries[i], "name"@, tools[i].name)
            &&& entries[i].get("calls"@) matches Some(Json::Array(calls))
            &&& read_responses(calls) == Ok::<Seq<ResponseModel>, Seq<char>>(tools[i].responses)
        }) by {
            if i < entries.len() - 1 {
                assert(entries.drop_last()[i] == entries[i]);
                assert(tools[i] == before[i]);
            }
        }
        assert forall|i: int| 0 <= i < tools.len() implies responses_of(
            tools,
            (#[trigger] tools[i]).name,
        ) == Some(tools[i].responses) by {
            if i < before.len() {
                assert(tools[i] == before[i]);
                assert(responses_of(before, before[i].name) is Some);
            }
        }
    }
}

/// The rules of a host are what they say; a host without a rule has none.
pub proof fn law_rules_are_what_they_say(host: Map<Seq<char>, Json>)
    ensures
        match read_block(host) {
            Ok(None) => member(host, "before_tool_call"@) is None,
            Ok(Some(rule)) => {
                &&& member(host, "before_tool_call"@) matches Some(value)
                &&& says(value, "tool_name"@, rule.tool_name)
                &&& says(value, "reason"@, rule.reason)
            },
            Err(_) => member(host, "before_tool_call"@) is Some,
        },
        match read_replace(host) {
            Ok(None) => member(host, "after_tool_call"@) is None,
            Ok(Some(rule)) => {
                &&& member(host, "after_tool_call"@) matches Some(value)
                &&& says(value, "tool_name"@, rule.tool_name)
                &&& says(value, "content"@, rule.content)
                &&& value.get("is_error"@) == Some(Json::Bool(rule.is_error))
            },
            Err(_) => member(host, "after_tool_call"@) is Some,
        },
{
}

/// A fixture is read by its members, each part from its own.
pub proof fn law_fixtures_are_read_by_their_members(root: Map<Seq<char>, Json>)
    ensures
        read_root(root) matches Ok(fixture) ==> {
            let whole = Json::Object(root);
            &&& whole.get("format_version"@) == Some(Json::Number(NumberModel::Int(1)))
            &&& says(whole, "kind"@, "declarative_parity_fixture"@)
            &&& says(whole, "id"@, fixture.id)
            &&& whole.get("setup"@) matches Some(setup)
            &&& says(setup, "system_prompt"@, fixture.system_prompt)
            &&& setup.get("model"@) matches Some(model)
            &&& says(model, "provider"@, fixture.provider)
            &&& says(model, "id"@, fixture.model)
            &&& setup.get("thinking_level"@) matches Some(Json::String(level))
            &&& read_thinking_level(level) == Ok::<ThinkingLevel, Seq<char>>(
                fixture.thinking_level,
            )
            &&& read_queue_mode(setup.get("steering_mode"@)) == Ok::<QueueMode, Seq<char>>(
                fixture.steering_mode,
            )
            &&& read_queue_mode(setup.get("follow_up_mode"@)) == Ok::<QueueMode, Seq<char>>(
                fixture.follow_up_mode,
            )
            &&& whole.get("host"@) matches Some(Json::Object(host))
            &&& read_block(host) == Ok::<_, Seq<char>>(fixture.before_tool_block)
            &&& read_replace(host) == Ok::<_, Seq<char>>(fixture.after_tool_replace)
            &&& setup matches Json::Object(members)
            &&& read_tools(members, host) == Ok::<_, Seq<char>>(fixture.tools)
            &&& whole.get("actions"@) matches Some(actions)
            &&& read_actions(actions) == Ok::<_, Seq<char>>(fixture.actions)
            &&& whole.get("model_script"@) matches Some(script)
            &&& read_script(script) == Ok::<_, Seq<char>>(fixture.turns)
        },
{
}

} // verus!
