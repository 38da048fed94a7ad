//! What the adapters send: the prompt, the conversation and the tools of a request, told by the
//! members of the payload.

use crate::evaluation;
use crate::json::{serde_from_str, serde_to_string, Json, NumberModel};
use crate::provider::commandcode::{self, CommandCodeConfigModel, PartsModel};
use crate::provider::local::{self, LocalConfigModel};
use crate::provider::openrouter::{self, OpenRouterConfigModel};
use crate::scheduler::RequestModel;
use crate::state::ThinkingLevel;
use crate::text::{trim_end, trim_start};
use crate::tool::DefinitionModel;
use vstd::prelude::*;

verus! {

/// Whether a payload carries a conversation: first the prompt as a system message, then every
/// message of the conversation, unchanged and in order, and nothing else.
pub open spec fn carries(payload: Json, prompt: Seq<char>, messages: Seq<Json>) -> bool {
    &&& payload.get("messages"@) matches Some(Json::Array(items))
    &&& items.len() == messages.len() + 1
    &&& items[0].get("role"@) == Some(Json::String("system"@))
    &&& items[0].get("content"@) == Some(Json::String(prompt))
    &&& forall|i: int| 0 <= i < messages.len() ==> items[i + 1] == #[trigger] messages[i]
}

/// Whether an item tells of a tool: its name, its description and this schema of its parameters.
pub open spec fn tells_tool(item: Json, tool: DefinitionModel, schema: Json) -> bool {
    &&& item.get("type"@) == Some(Json::String("function"@))
    &&& item.get("function"@) matches Some(function)
    &&& function.get("name"@) == Some(Json::String(tool.name))
    &&& function.get("description"@) == Some(Json::String(tool.description))
    &&& function.get("parameters"@) == Some(schema)
}

/// Whether a payload offers exactly these tools, in order.
pub open spec fn offers(payload: Json, tools: Seq<DefinitionModel>) -> bool {
    &&& payload.get("tools"@) matches Some(Json::Array(items))
    &&& items.len() == tools.len()
    &&& forall|i: int|
        0 <= i < tools.len() ==> tells_tool(items[i], #[trigger] tools[i], tools[i].schema)
}

/// The members of a message and of a tool stand apart.
proof fn lemma_tool_keys()
    ensures
        "role"@ != "content"@,
        "type"@ != "function"@,
        "name"@ != "description"@,
        "name"@ != "parameters"@,
        "name"@ != "input_schema"@,
        "description"@ != "parameters"@,
        "description"@ != "input_schema"@,
        "parameters"@ != "input_schema"@,
{
    reveal_strlit("role");
    reveal_strlit("content");
    reveal_strlit("type");
    reveal_strlit("function");
    reveal_strlit("name");
    reveal_strlit("description");
    reveal_strlit("parameters");
    reveal_strlit("input_schema");
    assert("role"@.len() == 4);
    assert("content"@.len() == 7);
    assert("type"@.len() == 4);
    assert("function"@.len() == 8);
    assert("name"@.len() == 4);
    assert("description"@.len() == 11);
    assert("parameters"@.len() == 10);
    assert("input_schema"@.len() == 12);
}

proof fn lemma_system(prompt: Seq<char>)
    ensures
        local::system_form(prompt).get("role"@) == Some(Json::String("system"@)),
        local::system_form(prompt).get("content"@) == Some(Json::String(prompt)),
{
    lemma_tool_keys();
}

proof fn lemma_tool(tool: DefinitionModel)
    ensures
        tells_tool(local::tool_form(tool), tool, tool.schema),
{
    lemma_tool_keys();
}

proof fn lemma_tools(tools: Seq<DefinitionModel>, items: Seq<Json>)
    requires
        items == local::tool_forms(tools),
    ensures
        items.len() == tools.len(),
        forall|i: int|
            0 <= i < tools.len() ==> tells_tool(items[i], #[trigger] tools[i], tools[i].schema),
{
    assert forall|i: int| 0 <= i < tools.len() implies tells_tool(
        items[i],
        #[trigger] tools[i],
        tools[i].schema,
    ) by {
        lemma_tool(tools[i]);
    }
}

/// What each adapter calls a member stands apart from what it calls another.
proof fn lemma_payload_keys()
    ensures
        "model"@ != "messages"@,
        "model"@ != "temperature"@,
        "model"@ != "max_tokens"@,
        "model"@ != "stream"@,
        "model"@ != "reasoning"@,
        "model"@ != "tools"@,
        "model"@ != "top_p"@,
        "model"@ != "min_p"@,
        "model"@ != "chat_template_kwargs"@,
        "messages"@ != "temperature"@,
        "messages"@ != "max_tokens"@,
        "messages"@ != "stream"@,
        "messages"@ != "reasoning"@,
        "messages"@ != "tools"@,
        "messages"@ != "top_p"@,
        "messages"@ != "min_p"@,
        "messages"@ != "chat_template_kwargs"@,
        "temperature"@ != "max_tokens"@,
        "temperature"@ != "stream"@,
        "temperature"@ != "reasoning"@,
        "temperature"@ != "tools"@,
        "temperature"@ != "top_p"@,
        "temperature"@ != "min_p"@,
        "temperature"@ != "chat_template_kwargs"@,
        "max_tokens"@ != "stream"@,
        "max_tokens"@ != "reasoning"@,
        "max_tokens"@ != "tools"@,
        "max_tokens"@ != "top_p"@,
        "max_tokens"@ != "min_p"@,
        "max_tokens"@ != "chat_template_kwargs"@,
        "stream"@ != "reasoning"@,
        "stream"@ != "tools"@,
        "stream"@ != "top_p"@,
        "stream"@ != "min_p"@,
        "stream"@ != "chat_template_kwargs"@,
        "reasoning"@ != "tools"@,
        "reasoning"@ != "top_p"@,
        "reasoning"@ != "min_p"@,
        "reasoning"@ != "chat_template_kwargs"@,
        "tools"@ != "top_p"@,
        "tools"@ != "min_p"@,
        "tools"@ != "chat_template_kwargs"@,
        "top_p"@ != "min_p"@,
        "top_p"@ != "chat_template_kwargs"@,
        "min_p"@ != "chat_template_kwargs"@,
{
    reveal_strlit("model");
    reveal_strlit("messages");
    reveal_strlit("temperature");
    reveal_strlit("max_tokens");
    reveal_strlit("stream");
    reveal_strlit("reasoning");
    reveal_strlit("tools");
    reveal_strlit("top_p");
    reveal_strlit("min_p");
    reveal_strlit("chat_template_kwargs");
    assert("model"@.len() == 5);
    assert("messages"@.len() == 8);
    assert("temperature"@.len() == 11);
    assert("max_tokens"@.len() == 10);
    assert("stream"@.len() == 6);
    assert("reasoning"@.len() == 9);
    assert("tools"@.len() == 5);
    assert("top_p"@.len() == 5);
    assert("min_p"@.len() == 5);
    assert("chat_template_kwargs"@.len() == 20);
    assert("model"@[0] != "tools"@[0]);
    assert("model"@[0] != "top_p"@[0]);
    assert("model"@[1] != "min_p"@[1]);
    assert("tools"@[2] != "top_p"@[2]);
    assert("tools"@[0] != "min_p"@[0]);
    assert("top_p"@[0] != "min_p"@[0]);
}

/// The payload for OpenRouter carries the prompt, the whole conversation in order, and the tools
/// where there are any, and names the configured model and token limit. The reasoning effort is
/// named exactly where the request names a thinking level. A context that is not an array of
/// messages is refused.
pub proof fn law_openrouter_is_sent_the_conversation(
    config: OpenRouterConfigModel,
    request: RequestModel,
)
    ensures
        ({
            let sent = openrouter::payload_of(config, request);
            match serde_from_str(request.context) {
                Ok(Json::Array(messages)) => {
                    &&& sent matches Ok(payload)
                    &&& carries(payload, request.system_prompt, messages)
                    &&& payload.get("model"@) == Some(Json::String(config.model))
                    &&& payload.get("max_tokens"@) == Some(
                        Json::Number(NumberModel::Int(config.max_tokens as int)),
                    )
                    &&& payload.get("temperature"@) == Some(Json::Number(NumberModel::Int(0)))
                    &&& payload.get("stream"@) == Some(Json::Bool(false))
                    &&& request.tools.len() > 0 ==> offers(payload, request.tools)
                    &&& request.tools.len() == 0 ==> payload.get("tools"@) is None
                    &&& match level_word(request.thinking_level) {
                        None => payload.get("reasoning"@) is None,
                        Some(word) => payload.get("reasoning"@) matches Some(reasoning)
                            && reasoning.get("effort"@) == Some(Json::String(word)),
                    }
                },
                _ => sent is Err,
            }
        }),
{
    lemma_payload_keys();
    if let Ok(Json::Array(messages)) = serde_from_str(request.context) {
        lemma_system(request.system_prompt);
        lemma_tools(request.tools, local::tool_forms(request.tools));
        lemma_levels(request.thinking_level);
        let payload = openrouter::payload_of(config, request)->Ok_0;
        let items = seq![local::system_form(request.system_prompt)] + messages;
        assert(payload.get("messages"@) == Some(Json::Array(items)));
        assert forall|i: int| 0 <= i < messages.len() implies items[i + 1]
            == #[trigger] messages[i] by {}
    }
}

/// The word for a thinking level, where one is named.
pub open spec fn level_word(level: ThinkingLevel) -> Option<Seq<char>> {
    if level == ThinkingLevel::Off {
        Some("off"@)
    } else if level == ThinkingLevel::Minimal {
        Some("minimal"@)
    } else if level == ThinkingLevel::Low {
        Some("low"@)
    } else if level == ThinkingLevel::Medium {
        Some("medium"@)
    } else if level == ThinkingLevel::High {
        Some("high"@)
    } else if level == ThinkingLevel::XHigh {
        Some("xhigh"@)
    } else if level == ThinkingLevel::Max {
        Some("max"@)
    } else {
        None
    }
}

proof fn lemma_levels(level: ThinkingLevel)
    ensures
        commandcode::effort_name(level) == level_word(level),
{
}

/// The payload for a local server carries the prompt, the whole conversation in order and the
/// tools, and names the configured model, token limit and sampling. Thinking is enabled unless
/// the configuration or the request turns it off.
pub proof fn law_local_servers_are_sent_the_conversation(
    config: LocalConfigModel,
    request: RequestModel,
)
    ensures
        ({
            let sent = local::payload_of(config, request);
            match serde_from_str(trim_end(trim_start(request.context))) {
                Ok(Json::Array(messages)) => {
                    &&& sent matches Ok(payload)
                    &&& carries(payload, request.system_prompt, messages)
                    &&& offers(payload, request.tools)
                    &&& payload.get("model"@) == Some(Json::String(config.model))
                    &&& payload.get("max_tokens"@) == Some(
                        Json::Number(NumberModel::Int(config.max_tokens as int)),
                    )
                    &&& payload.get("stream"@) == Some(Json::Bool(false))
                    &&& config.temperature matches Some(text) ==> payload.get("temperature"@)
                        == Some(Json::Number(NumberModel::Float(text)))
                    &&& config.top_p matches Some(text) ==> payload.get("top_p"@) == Some(
                        Json::Number(NumberModel::Float(text)),
                    )
                    &&& config.min_p matches Some(text) ==> payload.get("min_p"@) == Some(
                        Json::Number(NumberModel::Float(text)),
                    )
                    &&& payload.get("chat_template_kwargs"@) matches Some(kwargs)
                    &&& kwargs.get("enable_thinking"@) == Some(
                        Json::Bool(
                            config.enable_thinking && !(request.thinking_level
                                == ThinkingLevel::Off),
                        ),
                    )
                },
                _ => sent is Err,
            }
        }),
{
    lemma_payload_keys();
    if let Ok(Json::Array(messages)) = serde_from_str(trim_end(trim_start(request.context))) {
        lemma_system(request.system_prompt);
        lemma_tools(request.tools, local::tool_forms(request.tools));
        let payload = local::payload_of(config, request)->Ok_0;
        let items = seq![local::system_form(request.system_prompt)] + messages;
        assert(payload.get("messages"@) == Some(Json::Array(items)));
        assert forall|i: int| 0 <= i < messages.len() implies items[i + 1]
            == #[trigger] messages[i] by {}
    }
}

/// The payload of an evaluation turn carries the prompt and the whole conversation in order, and
/// names the model and the token limit it was given.
pub proof fn law_evaluations_are_sent_the_conversation(
    model: Seq<char>,
    max_tokens: u64,
    request: RequestModel,
    messages: Seq<Json>,
)
    ensures
        evaluation::payload_of(model, max_tokens, request, messages) matches Ok(payload) ==> {
            &&& carries(payload, request.system_prompt, messages)
            &&& payload.get("model"@) == Some(Json::String(model))
            &&& payload.get("max_tokens"@) == Some(
                Json::Number(NumberModel::Int(max_tokens as int)),
            )
            &&& payload.get("stream"@) == Some(Json::Bool(false))
            &&& request.tools.len() == 0 ==> payload.get("tools"@) is None
        },
        request.tools.len() == 0 ==> evaluation::payload_of(model, max_tokens, request, messages)
            is Ok,
{
    lemma_payload_keys();
    lemma_system(request.system_prompt);
    let items = seq![local::system_form(request.system_prompt)] + messages;
    assert forall|i: int| 0 <= i < messages.len() implies items[i + 1]
        == #[trigger] messages[i] by {}
}

/// The members of a converted message and of its parts stand apart.
proof fn lemma_gateway_keys()
    ensures
        "role"@ != "content"@,
        "type"@ != "text"@,
        "type"@ != "value"@,
        "type"@ != "toolCallId"@,
        "type"@ != "toolName"@,
        "type"@ != "output"@,
        "type"@ != "isError"@,
        "type"@ != "input"@,
        "text"@ != "value"@,
        "text"@ != "toolCallId"@,
        "text"@ != "toolName"@,
        "text"@ != "output"@,
        "text"@ != "isError"@,
        "text"@ != "input"@,
        "value"@ != "toolCallId"@,
        "value"@ != "toolName"@,
        "value"@ != "output"@,
        "value"@ != "isError"@,
        "value"@ != "input"@,
        "toolCallId"@ != "toolName"@,
        "toolCallId"@ != "output"@,
        "toolCallId"@ != "isError"@,
        "toolCallId"@ != "input"@,
        "toolName"@ != "output"@,
        "toolName"@ != "isError"@,
        "toolName"@ != "input"@,
        "output"@ != "isError"@,
        "output"@ != "input"@,
        "isError"@ != "input"@,
        "user"@ != "assistant"@,
        "user"@ != "tool"@,
        "assistant"@ != "tool"@,
        "user"@.len() > 0,
        "assistant"@.len() > 0,
        "tool"@.len() > 0,
{
    reveal_strlit("role");
    reveal_strlit("content");
    reveal_strlit("type");
    reveal_strlit("text");
    reveal_strlit("value");
    reveal_strlit("toolCallId");
    reveal_strlit("toolName");
    reveal_strlit("output");
    reveal_strlit("isError");
    reveal_strlit("input");
    reveal_strlit("user");
    reveal_strlit("assistant");
    reveal_strlit("tool");
    assert("role"@.len() == 4);
    assert("content"@.len() == 7);
    assert("type"@.len() == 4);
    assert("text"@.len() == 4);
    assert("value"@.len() == 5);
    assert("toolCallId"@.len() == 10);
    assert("toolName"@.len() == 8);
    assert("output"@.len() == 6);
    assert("isError"@.len() == 7);
    assert("input"@.len() == 5);
    assert("user"@.len() == 4);
    assert("assistant"@.len() == 9);
    assert("tool"@.len() == 4);
    assert("type"@[1] != "text"@[1]);
    assert("value"@[0] != "input"@[0]);
    assert("user"@[0] != "tool"@[0]);
}

/// The text of a message: that of its content, which is empty where it is absent or null.
pub open spec fn content_text(message: Json) -> Option<Seq<char>> {
    match message.get("content"@) {
        None => Some(Seq::empty()),
        Some(Json::Null) => Some(Seq::empty()),
        Some(Json::String(text)) => Some(text),
        Some(_) => None,
    }
}

/// A converted user message is a user message with one text part, which holds the text of the
/// message.
pub proof fn law_gateway_user_messages_keep_their_text(
    message: Json,
    names: Map<Seq<char>, Seq<char>>,
)
    requires
        message.get("role"@) == Some(Json::String("user"@)),
    ensures
        match content_text(message) {
            None => commandcode::converted(message, names) is Err,
            Some(text) => {
                &&& commandcode::converted(message, names) matches Ok((form, after))
                &&& after == names
                &&& form.get("role"@) == Some(Json::String("user"@))
                &&& form.get("content"@) matches Some(Json::Array(parts))
                &&& parts.len() == 1
                &&& parts[0].get("type"@) == Some(Json::String("text"@))
                &&& parts[0].get("text"@) == Some(Json::String(text))
            },
        },
{
    lemma_gateway_keys();
    reveal_strlit("");
    assert(""@ =~= Seq::<char>::empty());
}

/// A converted tool message carries what the tool returned: one result part whose output is
/// exactly the text of the message, under the identifier of its call and the name that the call
/// was made with, and marked as an error exactly where the message says so. A result without a
/// call before it is refused.
pub proof fn law_gateway_tool_results_keep_their_text(
    message: Json,
    names: Map<Seq<char>, Seq<char>>,
    id: Seq<char>,
)
    requires
        message.get("role"@) == Some(Json::String("tool"@)),
        message.get("tool_call_id"@) == Some(Json::String(id)),
        id.len() > 0,
    ensures
        match content_text(message) {
            Some(text) if names.contains_key(id) => {
                &&& commandcode::converted(message, names) matches Ok((form, after))
                &&& after == names
                &&& form.get("role"@) == Some(Json::String("tool"@))
                &&& form.get("content"@) matches Some(Json::Array(parts))
                &&& parts.len() == 1
                &&& parts[0].get("type"@) == Some(Json::String("tool-result"@))
                &&& parts[0].get("toolCallId"@) == Some(Json::String(id))
                &&& parts[0].get("toolName"@) == Some(Json::String(names[id]))
                &&& parts[0].get("output"@) matches Some(output)
                &&& output.get("type"@) == Some(Json::String("text"@))
                &&& output.get("value"@) == Some(Json::String(text))
                &&& parts[0].get("isError"@) == Some(
                    Json::Bool(message.get("is_error"@) == Some(Json::Bool(true))),
                )
            },
            _ => commandcode::converted(message, names) is Err,
        },
{
    lemma_gateway_keys();
    reveal_strlit("");
    assert(""@ =~= Seq::<char>::empty());
}

/// Whether a part tells of a call: its identifier, its name and the object that its arguments
/// read as.
pub open spec fn tells_call(part: Json, call: Json) -> bool {
    &&& part.get("type"@) == Some(Json::String("tool-call"@))
    &&& part.get("toolCallId"@) == call.get("id"@)
    &&& call.get("function"@) matches Some(function)
    &&& part.get("toolName"@) == function.get("name"@)
    &&& function.get("arguments"@) matches Some(Json::String(arguments))
    &&& serde_from_str(arguments) is Ok
    &&& part.get("input"@) == Some(serde_from_str(arguments)->Ok_0)
}

/// Whether a call names a tool under an identifier.
pub open spec fn names_tool(call: Json, id: Seq<char>, name: Seq<char>) -> bool {
    &&& call.get("id"@) == Some(Json::String(id))
    &&& call.get("function"@) matches Some(function)
    &&& function.get("name"@) == Some(Json::String(name))
}

/// Whether names are remembered: each call's under its identifier, where no later call has the
/// same, and all others as before.
pub open spec fn remembers(
    before: Map<Seq<char>, Seq<char>>,
    calls: Seq<Json>,
    after: Map<Seq<char>, Seq<char>>,
) -> bool {
    &&& forall|i: int, id: Seq<char>, name: Seq<char>| #[trigger]
        names_tool(calls[i], id, name) && 0 <= i < calls.len() && (forall|j: int|
            i < j < calls.len() ==> (#[trigger] calls[j]).get("id"@) != Some(Json::String(id)))
            ==> after.contains_key(id) && after[id] == name
    &&& forall|id: Seq<char>|
        (forall|j: int|
            0 <= j < calls.len() ==> (#[trigger] calls[j]).get("id"@) != Some(Json::String(id)))
            ==> (#[trigger] after.contains_key(id) == before.contains_key(id)) && (
        before.contains_key(id) ==> after[id] == before[id])
}

proof fn lemma_remembered(before: PartsModel, calls: Seq<Json>)
    ensures
        commandcode::with_calls(before, calls) matches Ok(after) ==> remembers(
            before.names,
            calls,
            after.names,
        ),
    decreases calls.len(),
{
    if calls.len() > 0 && commandcode::with_calls(before, calls) is Ok {
        let front = calls.drop_last();
        let last = calls.last();
        lemma_remembered(before, front);
        let part = commandcode::with_calls(before, front)->Ok_0.names;
        let after = commandcode::with_calls(before, calls)->Ok_0.names;
        let key = last.get("id"@)->0->String_0;
        assert(last.get("id"@) == Some(Json::String(key)));
        assert(after == part.insert(key, last.get("function"@)->0.get("name"@)->0->String_0));
        assert forall|i: int, id: Seq<char>, name: Seq<char>| #[trigger]
            names_tool(calls[i], id, name) && 0 <= i < calls.len() && (forall|j: int|
                i < j < calls.len() ==> (#[trigger] calls[j]).get("id"@) != Some(
                    Json::String(id),
                )) implies after.contains_key(id) && after[id] == name by {
            if i < calls.len() - 1 {
                assert(calls[calls.len() - 1].get("id"@) != Some(Json::String(id)));
                assert(names_tool(front[i], id, name));
                assert forall|j: int| i < j < front.len() implies (#[trigger] front[j]).get("id"@)
                    != Some(Json::String(id)) by {
                    assert(front[j] == calls[j]);
                }
            }
        }
        assert forall|id: Seq<char>|
            (forall|j: int|
                0 <= j < calls.len() ==> (#[trigger] calls[j]).get("id"@) != Some(
                    Json::String(id),
                )) implies (#[trigger] after.contains_key(id) == before.names.contains_key(id)) && (
        before.names.contains_key(id) ==> after[id] == before.names[id]) by {
            assert(calls[calls.len() - 1].get("id"@) != Some(Json::String(id)));
            assert forall|j: int| 0 <= j < front.len() implies (#[trigger] front[j]).get("id"@)
                != Some(Json::String(id)) by {
                assert(front[j] == calls[j]);
            }
            assert(part.contains_key(id) == before.names.contains_key(id));
        }
    }
}

/// The tool calls of an assistant message are converted one for one, behind the parts that stand
/// before them.
proof fn lemma_calls(before: PartsModel, calls: Seq<Json>)
    ensures
        commandcode::with_calls(before, calls) matches Ok(after) ==> {
            &&& after.parts.len() == before.parts.len() + calls.len()
            &&& forall|i: int|
                0 <= i < before.parts.len() ==> #[trigger] after.parts[i] == before.parts[i]
            &&& forall|i: int|
                0 <= i < calls.len() ==> tells_call(
                    after.parts[before.parts.len() + i],
                    #[trigger] calls[i],
                )
        },
    decreases calls.len(),
{
    lemma_gateway_keys();
    if calls.len() > 0 && commandcode::with_calls(before, calls) is Ok {
        lemma_calls(before, calls.drop_last());
        let part = commandcode::with_calls(before, calls.drop_last())->Ok_0;
        let after = commandcode::with_calls(before, calls)->Ok_0;
        assert forall|i: int| 0 <= i < calls.len() implies tells_call(
            after.parts[before.parts.len() + i],
            #[trigger] calls[i],
        ) by {
            if i < calls.len() - 1 {
                assert(tells_call(
                    part.parts[before.parts.len() + i],
                    calls.drop_last()[i],
                ));
            }
        }
    }
}

/// A converted assistant message holds its text first, where it has any, and then its tool calls,
/// one part for each in order, with identifier, name and arguments. The name of each call is
/// remembered for the result that answers it, and those of earlier messages stay known.
pub proof fn law_gateway_assistant_messages_keep_text_and_calls(
    message: Json,
    names: Map<Seq<char>, Seq<char>>,
    calls: Seq<Json>,
)
    requires
        message.get("role"@) == Some(Json::String("assistant"@)),
        message.get("tool_calls"@) == Some(Json::Array(calls)) || calls.len() == 0 && !(message.get(
            "tool_calls"@,
        ) matches Some(Json::Array(_))),
    ensures
        commandcode::converted(message, names) matches Ok((form, after)) ==> {
            &&& content_text(message) matches Some(text)
            &&& form.get("role"@) == Some(Json::String("assistant"@))
            &&& form.get("content"@) matches Some(Json::Array(parts))
            &&& parts.len() == calls.len() + (if text.len() > 0 {
                1int
            } else {
                0
            })
            &&& text.len() > 0 ==> parts[0].get("type"@) == Some(Json::String("text"@))
                && parts[0].get("text"@) == Some(Json::String(text))
            &&& forall|i: int|
                0 <= i < calls.len() ==> tells_call(
                    parts[parts.len() - calls.len() + i],
                    #[trigger] calls[i],
                )
            &&& remembers(names, calls, after)
        },
        calls.len() == 0 && content_text(message) is Some ==> commandcode::converted(message, names)
            is Ok,
{
    lemma_gateway_keys();
    reveal_strlit("");
    assert(""@ =~= Seq::<char>::empty());
    if let Some(text) = content_text(message) {
        let parts = if text.len() > 0 {
            seq![commandcode::text_part(text)]
        } else {
            Seq::empty()
        };
        lemma_calls(PartsModel { parts, names }, calls);
        lemma_remembered(PartsModel { parts, names }, calls);
        let none: Seq<Json> = Seq::empty();
        assert(calls.len() == 0 ==> calls =~= none);
        if let Ok((form, after)) = commandcode::converted(message, names) {
            let all = commandcode::with_calls(PartsModel { parts, names }, calls)->Ok_0;
            assert(form.get("content"@) == Some(Json::Array(all.parts)));
            if text.len() > 0 {
                assert(all.parts[0] == parts[0]);
            }
        }
    }
}

/// A conversation is converted message by message: the conversion has one form for each message,
/// in order, and that of a message rests on it and on the calls before it alone.
pub proof fn law_gateway_conversations_keep_order(messages: Seq<Json>, k: int)
    requires
        0 <= k < messages.len(),
        commandcode::converted_all(messages) is Ok,
    ensures
        ({
            let all = commandcode::converted_all(messages)->Ok_0;
            let before = commandcode::converted_all(messages.take(k));
            &&& all.parts.len() == messages.len()
            &&& before is Ok
            &&& commandcode::converted(messages[k], before->Ok_0.names) matches Ok((form, _))
                && all.parts[k] == form
        }),
    decreases messages.len(),
{
    lemma_one_each(messages);
    let n = messages.len() - 1;
    if k == n {
        assert(messages.take(k) =~= messages.drop_last());
    } else {
        law_gateway_conversations_keep_order(messages.drop_last(), k);
        assert(messages.drop_last().take(k) =~= messages.take(k));
        lemma_one_each(messages.drop_last());
    }
}

proof fn lemma_one_each(messages: Seq<Json>)
    ensures
        commandcode::converted_all(messages) matches Ok(all) ==> all.parts.len() == messages.len(),
    decreases messages.len(),
{
    if messages.len() > 0 {
        lemma_one_each(messages.drop_last());
    }
}

/// The members of a gateway request stand apart.
proof fn lemma_request_keys()
    ensures
        "config"@ != "memory"@,
        "config"@ != "taste"@,
        "config"@ != "skills"@,
        "config"@ != "permissionMode"@,
        "config"@ != "mode"@,
        "config"@ != "params"@,
        "config"@ != "threadId"@,
        "memory"@ != "taste"@,
        "memory"@ != "skills"@,
        "memory"@ != "permissionMode"@,
        "memory"@ != "mode"@,
        "memory"@ != "params"@,
        "memory"@ != "threadId"@,
        "taste"@ != "skills"@,
        "taste"@ != "permissionMode"@,
        "taste"@ != "mode"@,
        "taste"@ != "params"@,
        "taste"@ != "threadId"@,
        "skills"@ != "permissionMode"@,
        "skills"@ != "mode"@,
        "skills"@ != "params"@,
        "skills"@ != "threadId"@,
        "permissionMode"@ != "mode"@,
        "permissionMode"@ != "params"@,
        "permissionMode"@ != "threadId"@,
        "mode"@ != "params"@,
        "mode"@ != "threadId"@,
        "params"@ != "threadId"@,
        "messages"@ != "tools"@,
        "messages"@ != "system"@,
        "messages"@ != "model"@,
        "messages"@ != "max_tokens"@,
        "messages"@ != "stream"@,
        "messages"@ != "temperature"@,
        "messages"@ != "reasoning_effort"@,
        "tools"@ != "system"@,
        "tools"@ != "model"@,
        "tools"@ != "max_tokens"@,
        "tools"@ != "stream"@,
        "tools"@ != "temperature"@,
        "tools"@ != "reasoning_effort"@,
        "system"@ != "model"@,
        "system"@ != "max_tokens"@,
        "system"@ != "stream"@,
        "system"@ != "temperature"@,
        "system"@ != "reasoning_effort"@,
        "model"@ != "max_tokens"@,
        "model"@ != "stream"@,
        "model"@ != "temperature"@,
        "model"@ != "reasoning_effort"@,
        "max_tokens"@ != "stream"@,
        "max_tokens"@ != "temperature"@,
        "max_tokens"@ != "reasoning_effort"@,
        "stream"@ != "temperature"@,
        "stream"@ != "reasoning_effort"@,
        "temperature"@ != "reasoning_effort"@,
{
    reveal_strlit("config");
    reveal_strlit("memory");
    reveal_strlit("taste");
    reveal_strlit("skills");
    reveal_strlit("permissionMode");
    reveal_strlit("mode");
    reveal_strlit("params");
    reveal_strlit("threadId");
    reveal_strlit("messages");
    reveal_strlit("tools");
    reveal_strlit("system");
    reveal_strlit("model");
    reveal_strlit("max_tokens");
    reveal_strlit("stream");
    reveal_strlit("temperature");
    reveal_strlit("reasoning_effort");
    assert("config"@.len() == 6);
    assert("memory"@.len() == 6);
    assert("taste"@.len() == 5);
    assert("skills"@.len() == 6);
    assert("permissionMode"@.len() == 14);
    assert("mode"@.len() == 4);
    assert("params"@.len() == 6);
    assert("threadId"@.len() == 8);
    assert("messages"@.len() == 8);
    assert("tools"@.len() == 5);
    assert("system"@.len() == 6);
    assert("model"@.len() == 5);
    assert("max_tokens"@.len() == 10);
    assert("stream"@.len() == 6);
    assert("temperature"@.len() == 11);
    assert("reasoning_effort"@.len() == 16);
    assert("config"@[0] != "memory"@[0]);
    assert("config"@[0] != "skills"@[0]);
    assert("config"@[0] != "params"@[0]);
    assert("memory"@[0] != "skills"@[0]);
    assert("memory"@[0] != "params"@[0]);
    assert("skills"@[0] != "params"@[0]);
    assert("tools"@[0] != "model"@[0]);
    assert("system"@[1] != "stream"@[1]);
}

/// The members of what is told of the host stand apart.
proof fn lemma_host_keys()
    ensures
        "workingDir"@ != "date"@,
        "workingDir"@ != "environment"@,
        "workingDir"@ != "structure"@,
        "workingDir"@ != "isGitRepo"@,
        "workingDir"@ != "currentBranch"@,
        "workingDir"@ != "mainBranch"@,
        "workingDir"@ != "gitStatus"@,
        "workingDir"@ != "recentCommits"@,
        "date"@ != "environment"@,
        "date"@ != "structure"@,
        "date"@ != "isGitRepo"@,
        "date"@ != "currentBranch"@,
        "date"@ != "mainBranch"@,
        "date"@ != "gitStatus"@,
        "date"@ != "recentCommits"@,
        "environment"@ != "structure"@,
        "environment"@ != "isGitRepo"@,
        "environment"@ != "currentBranch"@,
        "environment"@ != "mainBranch"@,
        "environment"@ != "gitStatus"@,
        "environment"@ != "recentCommits"@,
        "structure"@ != "isGitRepo"@,
        "structure"@ != "currentBranch"@,
        "structure"@ != "mainBranch"@,
        "structure"@ != "gitStatus"@,
        "structure"@ != "recentCommits"@,
        "isGitRepo"@ != "currentBranch"@,
        "isGitRepo"@ != "mainBranch"@,
        "isGitRepo"@ != "gitStatus"@,
        "isGitRepo"@ != "recentCommits"@,
        "currentBranch"@ != "mainBranch"@,
        "currentBranch"@ != "gitStatus"@,
        "currentBranch"@ != "recentCommits"@,
        "mainBranch"@ != "gitStatus"@,
        "mainBranch"@ != "recentCommits"@,
        "gitStatus"@ != "recentCommits"@,
{
    reveal_strlit("workingDir");
    reveal_strlit("date");
    reveal_strlit("environment");
    reveal_strlit("structure");
    reveal_strlit("isGitRepo");
    reveal_strlit("currentBranch");
    reveal_strlit("mainBranch");
    reveal_strlit("gitStatus");
    reveal_strlit("recentCommits");
    assert("workingDir"@.len() == 10);
    assert("date"@.len() == 4);
    assert("environment"@.len() == 11);
    assert("structure"@.len() == 9);
    assert("isGitRepo"@.len() == 9);
    assert("currentBranch"@.len() == 13);
    assert("mainBranch"@.len() == 10);
    assert("gitStatus"@.len() == 9);
    assert("recentCommits"@.len() == 13);
    assert("workingDir"@[0] != "mainBranch"@[0]);
    assert("structure"@[0] != "isGitRepo"@[0]);
    assert("structure"@[0] != "gitStatus"@[0]);
    assert("isGitRepo"@[0] != "gitStatus"@[0]);
    assert("currentBranch"@[0] != "recentCommits"@[0]);
}

/// The request to the gateway carries the converted conversation as it was converted, the prompt
/// as its system text, and the configured model, token limit, mode and permission mode. A thread
/// is named exactly where one is configured, and an effort exactly where the request names one.
pub proof fn law_the_gateway_is_sent_the_conversation(
    config: CommandCodeConfigModel,
    request: RequestModel,
)
    ensures
        ({
            let sent = commandcode::payload_of(config, request);
            match serde_from_str(request.context) {
                Ok(Json::Array(messages)) => {
                    &&& commandcode::converted_all(messages) is Err ==> sent is Err
                    &&& sent matches Ok(payload) ==> {
                        let forms = commandcode::converted_all(messages)->Ok_0.parts;
                        &&& payload.get("params"@) matches Some(params)
                        &&& params.get("messages"@) == Some(Json::Array(forms))
                        &&& commandcode::tool_forms(request.tools) matches Ok(tools)
                            && params.get("tools"@) == Some(Json::Array(tools))
                        &&& params.get("system"@) == Some(Json::String(request.system_prompt))
                        &&& params.get("model"@) == Some(Json::String(config.model))
                        &&& params.get("max_tokens"@) == Some(
                            Json::Number(NumberModel::Int(config.max_tokens as int)),
                        )
                        &&& params.get("stream"@) == Some(Json::Bool(true))
                        &&& match level_word(request.thinking_level) {
                            None => params.get("reasoning_effort"@) is None,
                            Some(word) => params.get("reasoning_effort"@) == Some(
                                Json::String(word),
                            ),
                        }
                        &&& match config.temperature {
                            None => params.get("temperature"@) is None,
                            Some(text) => params.get("temperature"@) == Some(
                                Json::Number(NumberModel::Float(text)),
                            ),
                        }
                        &&& match config.thread_id {
                            None => payload.get("threadId"@) is None,
                            Some(id) => payload.get("threadId"@) == Some(Json::String(id)),
                        }
                        &&& payload.get("mode"@) == Some(Json::String(config.mode))
                        &&& payload.get("permissionMode"@) == Some(
                            Json::String(config.permission_mode.spec_name()),
                        )
                        &&& payload.get("config"@) matches Some(host)
                        &&& host.get("workingDir"@) == Some(
                            Json::String(config.host.working_directory),
                        )
                        &&& host.get("date"@) == Some(Json::String(config.host.date))
                        &&& host.get("environment"@) == Some(Json::String(config.host.environment))
                    }
                },
                _ => sent is Err,
            }
        }),
{
    lemma_request_keys();
    lemma_host_keys();
    lemma_levels(request.thinking_level);
}

/// The gateway is offered exactly the tools of the request, in order, each with its name, its
/// description and its schema as it reads back from its own text.
pub proof fn law_the_gateway_is_offered_the_tools(tools: Seq<DefinitionModel>)
    ensures
        commandcode::tool_forms(tools) matches Ok(items) ==> {
            &&& items.len() == tools.len()
            &&& forall|i: int|
                0 <= i < tools.len() ==> {
                    &&& items[i].get("name"@) == Some(Json::String((#[trigger] tools[i]).name))
                    &&& items[i].get("description"@) == Some(Json::String(tools[i].description))
                    &&& serde_from_str(serde_to_string(tools[i].schema)) is Ok
                    &&& items[i].get("input_schema"@) == Some(
                        serde_from_str(serde_to_string(tools[i].schema))->Ok_0,
                    )
                }
        },
    decreases tools.len(),
{
    if tools.len() > 0 && commandcode::tool_forms(tools) is Ok {
        law_the_gateway_is_offered_the_tools(tools.drop_last());
        let items = commandcode::tool_forms(tools)->Ok_0;
        let before = commandcode::tool_forms(tools.drop_last())->Ok_0;
        assert forall|i: int| 0 <= i < tools.len() implies ({
            &&& items[i].get("name"@) == Some(Json::String((#[trigger] tools[i]).name))
            &&& items[i].get("description"@) == Some(Json::String(tools[i].description))
            &&& serde_from_str(serde_to_string(tools[i].schema)) is Ok
            &&& items[i].get("input_schema"@) == Some(
                serde_from_str(serde_to_string(tools[i].schema))->Ok_0,
            )
        }) by {
            if i < tools.len() - 1 {
                assert(tools.drop_last()[i] == tools[i]);
                assert(items[i] == before[i]);
            } else {
                lemma_tool_keys();
            }
        }
    }
}

/// Whether a call of a conversation is whole: it has an identifier and names a tool, and its
/// arguments read as an object.
pub open spec fn whole_call(call: Json) -> bool {
    &&& call.get("id"@) matches Some(Json::String(id)) && id.len() > 0
    &&& call.get("function"@) matches Some(Json::Object(function))
    &&& call.get("function"@)->0.get("name"@) matches Some(Json::String(name)) && name.len() > 0
    &&& call.get("function"@)->0.get("arguments"@) matches Some(Json::String(arguments))
        && arguments.len() > 0 && (serde_from_str(arguments) matches Ok(input) && input is Object)
}

proof fn lemma_whole_calls(before: PartsModel, calls: Seq<Json>)
    ensures
        commandcode::with_calls(before, calls) is Ok <==> forall|i: int|
            0 <= i < calls.len() ==> whole_call(#[trigger] calls[i]),
    decreases calls.len(),
{
    if calls.len() > 0 {
        let front = calls.drop_last();
        lemma_whole_calls(before, front);
        if forall|i: int| 0 <= i < calls.len() ==> whole_call(#[trigger] calls[i]) {
            assert forall|i: int| 0 <= i < front.len() implies whole_call(#[trigger] front[i]) by {
                assert(front[i] == calls[i]);
            }
            assert(whole_call(calls[calls.len() - 1]));
        }
        if commandcode::with_calls(before, calls) is Ok {
            assert forall|i: int| 0 <= i < calls.len() implies whole_call(#[trigger] calls[i]) by {
                if i < front.len() {
                    assert(whole_call(front[i]));
                }
            }
        }
    }
}

/// An assistant message is converted exactly where its content is a text, or none, and all of its
/// calls are whole.
pub proof fn law_gateway_takes_whole_assistant_messages(
    message: Json,
    names: Map<Seq<char>, Seq<char>>,
    calls: Seq<Json>,
)
    requires
        message.get("role"@) == Some(Json::String("assistant"@)),
        message.get("tool_calls"@) == Some(Json::Array(calls)),
    ensures
        commandcode::converted(message, names) is Ok <==> content_text(message) is Some && forall|
            i: int,
        |
            0 <= i < calls.len() ==> whole_call(#[trigger] calls[i]),
{
    lemma_gateway_keys();
    reveal_strlit("");
    assert(""@ =~= Seq::<char>::empty());
    if let Some(text) = content_text(message) {
        let parts = if text.len() > 0 {
            seq![commandcode::text_part(text)]
        } else {
            Seq::empty()
        };
        lemma_whole_calls(PartsModel { parts, names }, calls);
    }
}

/// A conversation is converted exactly where each of its messages is, after those before it.
pub proof fn law_gateway_takes_whole_conversations(messages: Seq<Json>, message: Json)
    ensures
        commandcode::converted_all(messages.push(message)) is Ok <==> (
        commandcode::converted_all(messages) matches Ok(before) && commandcode::converted(
            message,
            before.names,
        ) is Ok),
        commandcode::converted_all(Seq::empty()) matches Ok(none) && none.parts.len() == 0,
{
    assert(messages.push(message).drop_last() =~= messages);
}

/// The tools of a request can be offered exactly where each schema reads back from its own text;
/// a request to the gateway is made exactly where its conversation is converted and its tools can
/// be offered.
pub proof fn law_readable_requests_are_sent(config: CommandCodeConfigModel, request: RequestModel)
    ensures
        commandcode::tool_forms(request.tools) is Ok <==> readable_schemas(request.tools),
        evaluation::wire_tools(request.tools) is Ok <==> readable_schemas(request.tools),
        commandcode::payload_of(config, request) is Ok <==> (serde_from_str(request.context)
            matches Ok(Json::Array(messages)) && commandcode::converted_all(messages) is Ok
            && readable_schemas(request.tools)),
        forall|model: Seq<char>, max_tokens: u64, messages: Seq<Json>|
            (#[trigger] evaluation::payload_of(model, max_tokens, request, messages)) is Ok
                <==> readable_schemas(request.tools),
{
    lemma_readable(request.tools);
}

/// Whether every schema reads back from its own text.
pub open spec fn readable_schemas(tools: Seq<DefinitionModel>) -> bool {
    forall|i: int|
        0 <= i < tools.len() ==> serde_from_str(serde_to_string((#[trigger] tools[i]).schema)) is Ok
}

proof fn lemma_readable(tools: Seq<DefinitionModel>)
    ensures
        commandcode::tool_forms(tools) is Ok <==> readable_schemas(tools),
        evaluation::wire_tools(tools) is Ok <==> readable_schemas(tools),
    decreases tools.len(),
{
    if tools.len() > 0 {
        let front = tools.drop_last();
        lemma_readable(front);
        if readable_schemas(tools) {
            assert forall|i: int| 0 <= i < front.len() implies serde_from_str(
                serde_to_string((#[trigger] front[i]).schema),
            ) is Ok by {
                assert(front[i] == tools[i]);
            }
            assert(serde_from_str(serde_to_string(tools[tools.len() - 1].schema)) is Ok);
        }
        if readable_schemas(front) && serde_from_str(serde_to_string(tools.last().schema)) is Ok {
            assert forall|i: int| 0 <= i < tools.len() implies serde_from_str(
                serde_to_string((#[trigger] tools[i]).schema),
            ) is Ok by {
                if i < front.len() {
                    assert(front[i] == tools[i]);
                }
            }
        }
    }
}

} // verus!
