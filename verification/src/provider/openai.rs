//! OpenAI-compatible context conversion for the concrete HTTP adapters.

use crate::hooks::ContextEnvelope;
use crate::json::{serde_to_string, Json, JsonObject, JsonValue};
use crate::state::{AssistantToolCall, CallModel, Message, MessageModel};
use vstd::prelude::*;

verus! {

broadcast use crate::model::group_views;

/// Convert a transcript into an OpenAI Chat Completions message array.
///
/// The adapters consume this host-produced context shape. The conversion is explicit, because
/// the transcript's own representation is no provider wire format.
#[derive(Clone, Copy, Debug)]
pub struct OpenAiContextHook;

/// A requested call in the wire form.
pub open spec fn call_form(call: CallModel) -> Json {
    Json::Object(
        map![
            "id"@ => Json::String(call.id),
            "type"@ => Json::String("function"@),
            "function"@ => Json::Object(
                map![
                    "name"@ => Json::String(call.name),
                    "arguments"@ => Json::String(call.arguments),
                ],
            ),
        ],
    )
}

/// A message in the wire form.
pub open spec fn message_form(message: MessageModel) -> Json {
    match message {
        MessageModel::User { content, .. } => Json::Object(
            map!["role"@ => Json::String("user"@), "content"@ => Json::String(content)],
        ),
        MessageModel::Assistant { content, tool_calls, .. } => Json::Object(
            map![
                "role"@ => Json::String("assistant"@),
                "content"@ => if content.len() == 0 {
                    Json::Null
                } else {
                    Json::String(content)
                },
                "tool_calls"@ => Json::Array(tool_calls.map_values(|call: CallModel| call_form(call))),
            ],
        ),
        MessageModel::ToolResult { tool_call_id, content, .. } => Json::Object(
            map![
                "role"@ => Json::String("tool"@),
                "tool_call_id"@ => Json::String(tool_call_id),
                "content"@ => Json::String(content),
            ],
        ),
    }
}

fn make_call(call: &AssistantToolCall) -> (r: JsonValue)
    ensures
        r@ == call_form(call@),
{
    let function = JsonObject::new().with("name", JsonValue::text(call.name.as_str())).with(
        "arguments",
        JsonValue::text(call.arguments.as_str()),
    );
    JsonValue::object(
        JsonObject::new().with("id", JsonValue::text(call.id.as_str())).with(
            "type",
            JsonValue::text("function"),
        ).with("function", JsonValue::object(function)),
    )
}

fn make_calls(calls: &Vec<AssistantToolCall>) -> (r: Vec<JsonValue>)
    ensures
        crate::model::views(r@) == crate::model::views(calls@).map_values(
            |call: CallModel| call_form(call),
        ),
{
    let ghost all = crate::model::views(calls@);
    let mut out: Vec<JsonValue> = Vec::new();
    let mut i: usize = 0;
    while i < calls.len()
        invariant
            i <= calls@.len(),
            all == crate::model::views(calls@),
            crate::model::views(out@) == all.take(i as int).map_values(
                |call: CallModel| call_form(call),
            ),
        decreases calls.len() - i,
    {
        out.push(make_call(&calls[i]));
        i = i + 1;
        proof {
            assert(all[i - 1] == calls@[i - 1]@);
            assert(crate::model::views(out@) =~= all.take(i as int).map_values(
                |call: CallModel| call_form(call),
            ));
        }
    }
    assert(all.take(i as int) =~= all);
    out
}

/// Convert one message.
pub fn openai_message(message: &Message) -> (r: JsonValue)
    ensures
        r@ == message_form(message@),
{
    match message {
        Message::User { content, .. } => JsonValue::object(
            JsonObject::new().with("role", JsonValue::text("user")).with(
                "content",
                JsonValue::text(content.as_str()),
            ),
        ),
        Message::Assistant { content, tool_calls, .. } => {
            let text = if content.as_str().is_empty() {
                JsonValue::null()
            } else {
                JsonValue::text(content.as_str())
            };
            JsonValue::object(
                JsonObject::new().with("role", JsonValue::text("assistant")).with(
                    "content",
                    text,
                ).with("tool_calls", JsonValue::array(make_calls(tool_calls))),
            )
        },
        Message::ToolResult { tool_call_id, content, .. } => JsonValue::object(
            JsonObject::new().with("role", JsonValue::text("tool")).with(
                "tool_call_id",
                JsonValue::text(tool_call_id.as_str()),
            ).with("content", JsonValue::text(content.as_str())),
        ),
    }
}

/// A transcript in the wire form.
pub open spec fn transcript_form(messages: Seq<MessageModel>) -> Json {
    Json::Array(messages.map_values(|message: MessageModel| message_form(message)))
}

impl OpenAiContextHook {
    /// Convert a context to the adapters' serialized form.
    pub fn convert_to_llm(&self, context: &ContextEnvelope) -> (r: String)
        ensures
            r@ == serde_to_string(transcript_form(context@.messages)),
    {
        let ghost all = context@.messages;
        let mut out: Vec<JsonValue> = Vec::new();
        let mut i: usize = 0;
        while i < context.messages.len()
            invariant
                i <= context.messages@.len(),
                all == crate::model::views(context.messages@),
                crate::model::views(out@) == all.take(i as int).map_values(
                    |message: MessageModel| message_form(message),
                ),
            decreases context.messages.len() - i,
        {
            out.push(openai_message(&context.messages[i]));
            i = i + 1;
            proof {
                assert(all[i - 1] == context.messages@[i - 1]@);
                assert(crate::model::views(out@) =~= all.take(i as int).map_values(
                    |message: MessageModel| message_form(message),
                ));
            }
        }
        assert(all.take(i as int) =~= all);
        JsonValue::array(out).to_json_string()
    }
}

/// The wire form keeps the order and number of the messages.
pub proof fn law_conversion_keeps_order(messages: Seq<MessageModel>, i: int)
    requires
        0 <= i < messages.len(),
    ensures
        transcript_form(messages).items()->0.len() == messages.len(),
        transcript_form(messages).items()->0[i] == message_form(messages[i]),
{
}

} // verus!
