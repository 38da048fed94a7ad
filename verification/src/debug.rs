//! Messages in the form that `{:?}` prints.
//!
//! A host without its own context conversion hands a model this form, one message per line.

use crate::run::stop_reason_debug;
use crate::state::{
    AssistantToolCall, CallModel, Message, MessageId, MessageModel, SerializedJson, StopReason, Usage,
    UsageModel,
};
use crate::text::{debug_quoted, digits, push_number, quoted};
use crate::transition::reason_name;
use vstd::prelude::*;

verus! {

broadcast use crate::model::group_views;

/// Texts one after the other, with a separator between them.
pub open spec fn separated(items: Seq<Seq<char>>, separator: Seq<char>) -> Seq<char>
    decreases items.len(),
{
    if items.len() == 0 {
        Seq::empty()
    } else if items.len() == 1 {
        items[0]
    } else {
        separated(items.drop_last(), separator) + separator + items.last()
    }
}

/// Join texts.
fn separate(items: &Vec<String>, separator: &str) -> (r: String)
    ensures
        r@ == separated(crate::model::views(items@), separator@),
{
    let ghost all = crate::model::views(items@);
    let mut out = String::new();
    let mut i: usize = 0;
    assert(all.take(0) =~= Seq::<Seq<char>>::empty());
    assert(out@ =~= Seq::<char>::empty());
    while i < items.len()
        invariant
            i <= items@.len(),
            all == crate::model::views(items@),
            out@ == separated(all.take(i as int), separator@),
        decreases items.len() - i,
    {
        if i > 0 {
            out.push_str(separator);
        }
        out.push_str(items[i].as_str());
        proof {
            let next = all.take(i + 1);
            assert(next.drop_last() =~= all.take(i as int));
            assert(next.last() == items@[i as int]@);
            if i == 0 {
                assert(out@ =~= next[0]);
            }
        }
        i = i + 1;
    }
    assert(all.take(i as int) =~= all);
    out
}

/// An optional count.
pub open spec fn debug_count(count: Option<u64>) -> Seq<char> {
    match count {
        Some(n) => "Some("@ + digits(n as nat) + ")"@,
        None => "None"@,
    }
}

/// An optional text.
pub open spec fn debug_text(text: Option<Seq<char>>) -> Seq<char> {
    match text {
        Some(text) => "Some("@ + debug_quoted(text) + ")"@,
        None => "None"@,
    }
}

/// A truth value.
pub open spec fn debug_flag(flag: bool) -> Seq<char> {
    if flag {
        "true"@
    } else {
        "false"@
    }
}

/// A message identity.
pub open spec fn debug_id(id: MessageId) -> Seq<char> {
    "MessageId("@ + digits(id.0 as nat) + ")"@
}

/// Reported usage.
pub open spec fn debug_usage(usage: UsageModel) -> Seq<char> {
    "Usage { input_tokens: "@ + debug_count(usage.input_tokens) + ", output_tokens: "@
        + debug_count(usage.output_tokens) + ", reasoning_tokens: "@ + debug_count(
        usage.reasoning_tokens,
    ) + ", cache_read_tokens: "@ + debug_count(usage.cache_read_tokens) + ", cache_write_tokens: "@
        + debug_count(usage.cache_write_tokens) + ", cost: "@ + debug_text(usage.cost) + " }"@
}

/// A requested call.
pub open spec fn debug_call(call: CallModel) -> Seq<char> {
    "AssistantToolCall { id: ToolCallId("@ + debug_quoted(call.id) + "), name: "@ + debug_quoted(
        call.name,
    ) + ", arguments: SerializedJson("@ + debug_quoted(call.arguments) + ") }"@
}

/// One message.
pub open spec fn debug_message(message: MessageModel) -> Seq<char> {
    match message {
        MessageModel::User { id, content } => "User { id: "@ + debug_id(id) + ", content: "@
            + debug_quoted(content) + " }"@,
        MessageModel::Assistant { id, content, tool_calls, stop_reason, error_message } => {
            let reason = match stop_reason {
                Some(reason) => "Some("@ + reason_name(reason) + ")"@,
                None => "None"@,
            };
            "Assistant { id: "@ + debug_id(id) + ", content: "@ + debug_quoted(content)
                + ", tool_calls: ["@ + separated(
                tool_calls.map_values(|call: CallModel| debug_call(call)),
                ", "@,
            ) + "], stop_reason: "@ + reason + ", error_message: "@ + debug_text(error_message)
                + " }"@
        },
        MessageModel::ToolResult {
            id,
            tool_call_id,
            tool_name,
            content,
            details,
            usage,
            added_tool_names,
            is_error,
        } => {
            let told = match details {
                Some(details) => "Some(SerializedJson("@ + debug_quoted(details) + "))"@,
                None => "None"@,
            };
            let used = match usage {
                Some(usage) => "Some("@ + debug_usage(usage) + ")"@,
                None => "None"@,
            };
            "ToolResult { id: "@ + debug_id(id) + ", tool_call_id: ToolCallId("@ + debug_quoted(
                tool_call_id,
            ) + "), tool_name: "@ + debug_quoted(tool_name) + ", content: "@ + debug_quoted(content)
                + ", details: "@ + told + ", usage: "@ + used + ", added_tool_names: ["@
                + separated(
                added_tool_names.map_values(|name: Seq<char>| debug_quoted(name)),
                ", "@,
            ) + "], is_error: "@ + debug_flag(is_error) + " }"@
        },
    }
}

/// A transcript, one message per line.
pub open spec fn debug_lines(messages: Seq<MessageModel>) -> Seq<char> {
    separated(messages.map_values(|message: MessageModel| debug_message(message)), "\n"@)
}

fn push_count(out: &mut String, count: Option<u64>)
    ensures
        final(out)@ == old(out)@ + debug_count(count),
{
    let ghost before = out@;
    match count {
        Some(n) => {
            out.push_str("Some(");
            push_number(out, n);
            out.push_str(")");
        },
        None => out.push_str("None"),
    }
    assert(out@ =~= before + debug_count(count));
}

fn push_text(out: &mut String, text: &Option<String>)
    ensures
        final(out)@ == old(out)@ + debug_text(crate::model::opt_view(*text)),
{
    let ghost before = out@;
    match text {
        Some(text) => {
            out.push_str("Some(");
            out.push_str(quoted(text.as_str()).as_str());
            out.push_str(")");
        },
        None => out.push_str("None"),
    }
    assert(out@ =~= before + debug_text(crate::model::opt_view(*text)));
}

fn push_id(out: &mut String, id: MessageId)
    ensures
        final(out)@ == old(out)@ + debug_id(id),
{
    let ghost before = out@;
    out.push_str("MessageId(");
    push_number(out, id.0);
    out.push_str(")");
    assert(out@ =~= before + debug_id(id));
}

fn usage_text(usage: &Usage) -> (r: String)
    ensures
        r@ == debug_usage(usage@),
{
    let mut out = "Usage { input_tokens: ".to_owned();
    push_count(&mut out, usage.input_tokens);
    out.push_str(", output_tokens: ");
    push_count(&mut out, usage.output_tokens);
    out.push_str(", reasoning_tokens: ");
    push_count(&mut out, usage.reasoning_tokens);
    out.push_str(", cache_read_tokens: ");
    push_count(&mut out, usage.cache_read_tokens);
    out.push_str(", cache_write_tokens: ");
    push_count(&mut out, usage.cache_write_tokens);
    out.push_str(", cost: ");
    push_text(&mut out, &usage.cost);
    out.push_str(" }");
    out
}

fn call_text(call: &AssistantToolCall) -> (r: String)
    ensures
        r@ == debug_call(call@),
{
    let mut out = "AssistantToolCall { id: ToolCallId(".to_owned();
    out.push_str(quoted(call.id.as_str()).as_str());
    out.push_str("), name: ");
    out.push_str(quoted(call.name.as_str()).as_str());
    out.push_str(", arguments: SerializedJson(");
    out.push_str(quoted(call.arguments.as_str()).as_str());
    out.push_str(") }");
    out
}

fn call_texts(calls: &Vec<AssistantToolCall>) -> (r: Vec<String>)
    ensures
        crate::model::views(r@) == crate::model::views(calls@).map_values(
            |call: CallModel| debug_call(call),
        ),
{
    let ghost all = crate::model::views(calls@).map_values(|call: CallModel| debug_call(call));
    let mut out: Vec<String> = Vec::new();
    let mut i: usize = 0;
    assert(all.take(0) =~= Seq::<Seq<char>>::empty());
    while i < calls.len()
        invariant
            i <= calls@.len(),
            all == crate::model::views(calls@).map_values(|call: CallModel| debug_call(call)),
            crate::model::views(out@) == all.take(i as int),
        decreases calls.len() - i,
    {
        out.push(call_text(&calls[i]));
        assert(all.take(i + 1) =~= all.take(i as int).push(debug_call(calls@[i as int]@)));
        i = i + 1;
    }
    assert(all.take(i as int) =~= all);
    out
}

fn name_texts(names: &Vec<String>) -> (r: Vec<String>)
    ensures
        crate::model::views(r@) == crate::model::views(names@).map_values(
            |name: Seq<char>| debug_quoted(name),
        ),
{
    let ghost all = crate::model::views(names@).map_values(|name: Seq<char>| debug_quoted(name));
    let mut out: Vec<String> = Vec::new();
    let mut i: usize = 0;
    assert(all.take(0) =~= Seq::<Seq<char>>::empty());
    while i < names.len()
        invariant
            i <= names@.len(),
            all == crate::model::views(names@).map_values(|name: Seq<char>| debug_quoted(name)),
            crate::model::views(out@) == all.take(i as int),
        decreases names.len() - i,
    {
        out.push(quoted(names[i].as_str()));
        assert(all.take(i + 1) =~= all.take(i as int).push(debug_quoted(names@[i as int]@)));
        i = i + 1;
    }
    assert(all.take(i as int) =~= all);
    out
}

fn assistant_text(
    id: MessageId,
    content: &String,
    tool_calls: &Vec<AssistantToolCall>,
    stop_reason: Option<StopReason>,
    error_message: &Option<String>,
) -> (r: String)
    ensures
        r@ == debug_message(
            MessageModel::Assistant {
                id,
                content: content@,
                tool_calls: crate::model::views(tool_calls@),
                stop_reason,
                error_message: crate::model::opt_view(*error_message),
            },
        ),
{
    let mut out = "Assistant { id: ".to_owned();
    push_id(&mut out, id);
    out.push_str(", content: ");
    out.push_str(quoted(content.as_str()).as_str());
    out.push_str(", tool_calls: [");
    out.push_str(separate(&call_texts(tool_calls), ", ").as_str());
    out.push_str("], stop_reason: ");
    let ghost before = out@;
    match stop_reason {
        Some(reason) => {
            out.push_str("Some(");
            out.push_str(stop_reason_debug(reason));
            out.push_str(")");
            assert(out@ =~= before + ("Some("@ + reason_name(reason) + ")"@));
        },
        None => out.push_str("None"),
    }
    out.push_str(", error_message: ");
    push_text(&mut out, error_message);
    out.push_str(" }");
    out
}

fn push_details(out: &mut String, details: &Option<SerializedJson>)
    ensures
        final(out)@ == old(out)@ + (match *details {
            Some(details) => "Some(SerializedJson("@ + debug_quoted(details@) + "))"@,
            None => "None"@,
        }),
{
    let ghost before = out@;
    match details {
        Some(details) => {
            out.push_str("Some(SerializedJson(");
            out.push_str(quoted(details.as_str()).as_str());
            out.push_str("))");
            assert(out@ =~= before + ("Some(SerializedJson("@ + debug_quoted(details@) + "))"@));
        },
        None => out.push_str("None"),
    }
}

fn push_optional_usage(out: &mut String, usage: &Option<Usage>)
    ensures
        final(out)@ == old(out)@ + (match *usage {
            Some(usage) => "Some("@ + debug_usage(usage@) + ")"@,
            None => "None"@,
        }),
{
    let ghost before = out@;
    match usage {
        Some(usage) => {
            out.push_str("Some(");
            out.push_str(usage_text(usage).as_str());
            out.push_str(")");
            assert(out@ =~= before + ("Some("@ + debug_usage(usage@) + ")"@));
        },
        None => out.push_str("None"),
    }
}

/// The text of one message.
pub fn message_text(message: &Message) -> (r: String)
    ensures
        r@ == debug_message(message@),
{
    match message {
        Message::User { id, content } => {
            let mut out = "User { id: ".to_owned();
            push_id(&mut out, *id);
            out.push_str(", content: ");
            out.push_str(quoted(content.as_str()).as_str());
            out.push_str(" }");
            out
        },
        Message::Assistant { id, content, tool_calls, stop_reason, error_message } =>
            assistant_text(*id, content, tool_calls, *stop_reason, error_message),
        Message::ToolResult {
            id,
            tool_call_id,
            tool_name,
            content,
            details,
            usage,
            added_tool_names,
            is_error,
        } => {
            let mut out = "ToolResult { id: ".to_owned();
            push_id(&mut out, *id);
            out.push_str(", tool_call_id: ToolCallId(");
            out.push_str(quoted(tool_call_id.as_str()).as_str());
            out.push_str("), tool_name: ");
            out.push_str(quoted(tool_name.as_str()).as_str());
            out.push_str(", content: ");
            out.push_str(quoted(content.as_str()).as_str());
            out.push_str(", details: ");
            push_details(&mut out, details);
            out.push_str(", usage: ");
            push_optional_usage(&mut out, usage);
            out.push_str(", added_tool_names: [");
            out.push_str(separate(&name_texts(added_tool_names), ", ").as_str());
            out.push_str("], is_error: ");
            out.push_str(if *is_error { "true" } else { "false" });
            out.push_str(" }");
            out
        },
    }
}

/// The text of a transcript.
pub fn transcript_text(messages: &Vec<Message>) -> (r: String)
    ensures
        r@ == debug_lines(crate::model::views(messages@)),
{
    let ghost all = crate::model::views(messages@).map_values(
        |message: MessageModel| debug_message(message),
    );
    let mut lines: Vec<String> = Vec::new();
    let mut i: usize = 0;
    assert(all.take(0) =~= Seq::<Seq<char>>::empty());
    while i < messages.len()
        invariant
            i <= messages@.len(),
            all == crate::model::views(messages@).map_values(
                |message: MessageModel| debug_message(message),
            ),
            crate::model::views(lines@) == all.take(i as int),
        decreases messages.len() - i,
    {
        lines.push(message_text(&messages[i]));
        assert(all.take(i + 1) =~= all.take(i as int).push(debug_message(messages@[i as int]@)));
        i = i + 1;
    }
    assert(all.take(i as int) =~= all);
    separate(&lines, "\n")
}

} // verus!
