//! What the adapters read: the text, the calls, the reason and the counts of a response, told by
//! the members of the response.

use crate::evaluation;
use crate::json::{serde_from_str, serde_to_string, Json, NumberModel};
use crate::provider::commandcode::{self, NdjsonModel};
use crate::provider::local;
use crate::provider::openai;
use crate::provider::openrouter::{self, OpenRouterCostSource};
use crate::scheduler::StreamEventModel;
use crate::state::{CallModel, MessageModel, StopReason, UsageModel};
use crate::text::{digits, is_blank};
use vstd::prelude::*;

verus! {

/// The count that a member holds: a whole number that is not negative.
pub open spec fn count_in(value: Json, key: Seq<char>) -> Option<u64> {
    match value.get(key) {
        Some(Json::Number(NumberModel::Int(n))) => if 0 <= n <= u64::MAX {
            Some(n as u64)
        } else {
            None
        },
        _ => None,
    }
}

/// The text that a member holds, which is empty where there is none.
pub open spec fn text_in(value: Json, key: Seq<char>) -> Seq<char> {
    match value.get(key) {
        Some(Json::String(text)) => text,
        _ => Seq::empty(),
    }
}

/// The items that a member holds, of which there are none where it is no array.
pub open spec fn items_in(value: Json, key: Seq<char>) -> Seq<Json> {
    match value.get(key) {
        Some(Json::Array(items)) => items,
        _ => Seq::empty(),
    }
}

/// Whether an event asks for a call of a response: by its name and its arguments, as they are
/// written, under its own identifier or, where it has none, under one that counts the calls.
pub open spec fn asks(event: StreamEventModel, call: Json, index: nat, prefix: Seq<char>) -> bool {
    &&& event matches StreamEventModel::ToolCall(made)
    &&& call.get("function"@) matches Some(function)
    &&& function.get("name"@) == Some(Json::String(made.name))
    &&& made.name.len() > 0
    &&& function.get("arguments"@) == Some(Json::String(made.arguments))
    &&& made.id == if text_in(call, "id"@).len() > 0 {
        text_in(call, "id"@)
    } else {
        prefix + digits(index)
    }
}

/// Whether events retell a choice: its text first, where there is any, then its calls in order,
/// and last why it ended. A response that was cut short says so; otherwise its calls are to be
/// used where there are any.
pub open spec fn retells(events: Seq<StreamEventModel>, choice: Json, prefix: Seq<char>) -> bool {
    &&& choice.get("message"@) matches Some(message)
    &&& {
        let text = text_in(message, "content"@);
        let calls = items_in(message, "tool_calls"@);
        let ahead = if text.len() > 0 {
            1int
        } else {
            0
        };
        &&& events.len() == ahead + calls.len() + 1
        &&& text.len() > 0 ==> events[0] == StreamEventModel::TextDelta(text)
        &&& forall|i: int|
            0 <= i < calls.len() ==> asks(
                events[ahead + i],
                #[trigger] calls[i],
                i as nat,
                prefix,
            )
        &&& events.last() == StreamEventModel::End(
            if choice.get("finish_reason"@) == Some(Json::String("length"@)) {
                StopReason::Length
            } else if calls.len() > 0 {
                StopReason::ToolUse
            } else {
                StopReason::EndTurn
            },
        )
    }
}

proof fn lemma_openrouter_calls(calls: Seq<Json>)
    ensures
        openrouter::read_calls(calls) matches Ok(events) ==> {
            &&& events.len() == calls.len()
            &&& forall|i: int|
                0 <= i < calls.len() ==> asks(
                    events[i],
                    #[trigger] calls[i],
                    i as nat,
                    "openrouter-call-"@,
                )
        },
    decreases calls.len(),
{
    if calls.len() > 0 && openrouter::read_calls(calls) is Ok {
        lemma_openrouter_calls(calls.drop_last());
        let events = openrouter::read_calls(calls)->Ok_0;
        let before = openrouter::read_calls(calls.drop_last())->Ok_0;
        assert forall|i: int| 0 <= i < calls.len() implies asks(
            events[i],
            #[trigger] calls[i],
            i as nat,
            "openrouter-call-"@,
        ) by {
            if i < calls.len() - 1 {
                assert(calls.drop_last()[i] == calls[i]);
                assert(events[i] == before[i]);
            }
        }
    }
}

proof fn lemma_openrouter_choice(choice: Json)
    ensures
        openrouter::choice_events(choice) matches Ok(events) ==> retells(
            events,
            choice,
            "openrouter-call-"@,
        ),
        choice.get("message"@) is Some && choice.get("message"@)->0 is Object && items_in(
            choice.get("message"@)->0,
            "tool_calls"@,
        ).len() == 0 ==> openrouter::choice_events(choice) is Ok,
{
    if let Some(message) = choice.get("message"@) {
        let calls = items_in(message, "tool_calls"@);
        lemma_openrouter_calls(calls);
        assert(calls == openrouter::calls_of(message));
        if let Ok(events) = openrouter::choice_events(choice) {
            let made = openrouter::read_calls(calls)->Ok_0;
            let text = text_in(message, "content"@);
            let ahead = if text.len() > 0 {
                1int
            } else {
                0
            };
            assert forall|i: int| 0 <= i < calls.len() implies asks(
                events[ahead + i],
                #[trigger] calls[i],
                i as nat,
                "openrouter-call-"@,
            ) by {
                assert(events[ahead + i] == made[i]);
            }
        }
    }
}

/// A completion of OpenRouter is read as it was written: the events retell its first choice, the
/// counts are those of its usage report, and its identifier is kept for the accounting. A
/// response with an error, or without a choice, is refused.
pub proof fn law_openrouter_completions_are_read_as_written(
    response: Json,
    price: Option<Seq<char>>,
)
    ensures
        response.get("error"@) is Some ==> openrouter::completion_of(response, price) is Err,
        items_in(response, "choices"@).len() == 0 ==> openrouter::completion_of(response, price)
            is Err,
        ({
            let choice = items_in(response, "choices"@)[0];
            response.get("error"@) is None && items_in(response, "choices"@).len() > 0
                && choice.get("message"@) is Some && choice.get("message"@)->0 is Object && items_in(
                choice.get("message"@)->0,
                "tool_calls"@,
            ).len() == 0 ==> openrouter::completion_of(response, price) is Ok
        }),
        openrouter::completion_of(response, price) matches Ok(parsed) ==> {
            let usage = if response.get("usage"@) is Some {
                response.get("usage"@)->0
            } else {
                Json::Null
            };
            &&& retells(parsed.events, items_in(response, "choices"@)[0], "openrouter-call-"@)
            &&& parsed.usage.input_tokens == count_in(usage, "prompt_tokens"@)
            &&& parsed.usage.output_tokens == count_in(usage, "completion_tokens"@)
            &&& parsed.usage.cost is None
            &&& match usage.get("completion_tokens_details"@) {
                Some(details) => parsed.usage.reasoning_tokens == count_in(
                    details,
                    "reasoning_tokens"@,
                ),
                None => parsed.usage.reasoning_tokens is None,
            }
            &&& parsed.generation_id == if text_in(response, "id"@).len() > 0 {
                Some(text_in(response, "id"@))
            } else {
                None
            }
        },
{
    if items_in(response, "choices"@).len() > 0 {
        lemma_openrouter_choice(items_in(response, "choices"@)[0]);
    }
}

/// A completion that reports its price gives it exactly, with the model and the counts of the
/// same response; one that does not gives no cost.
pub proof fn law_reported_prices_are_kept(response: Json, price: Option<Seq<char>>)
    ensures
        openrouter::completion_of(response, price) matches Ok(parsed) ==> match price {
            None => parsed.inline_cost is None,
            Some(text) => {
                &&& parsed.inline_cost matches Some(cost)
                &&& cost.source == OpenRouterCostSource::ChatUsage
                &&& cost.total_usd_exact == Some(text)
                &&& cost.upstream_inference_usd_exact is None
                &&& cost.provider is None
                &&& response.get("model"@) matches Some(Json::String(model)) ==> cost.model
                    == Some(model)
                &&& cost.input_tokens == parsed.usage.input_tokens
                &&& cost.output_tokens == parsed.usage.output_tokens
                &&& cost.reasoning_tokens == parsed.usage.reasoning_tokens
                &&& response.get("usage"@) matches Some(usage) ==> (usage.get(
                    "prompt_tokens_details"@,
                ) matches Some(details) ==> cost.cache_read_tokens == count_in(
                    details,
                    "cached_tokens"@,
                ) && cost.cache_write_tokens == count_in(details, "cache_write_tokens"@))
            },
        },
{
}

/// The accounting of a generation gives the prices that were read from it, its model and its
/// provider. A count that it leaves out is the one that the completion reported. Without data or
/// without a price there is no accounting.
pub proof fn law_generations_are_read_as_written(
    response: Json,
    total: Option<Seq<char>>,
    inference: Option<Seq<char>>,
    fallback: UsageModel,
)
    ensures
        openrouter::generation_of(response, total, inference, fallback) is Some <==> total is Some
            && response.get("data"@) is Some,
        openrouter::generation_of(response, total, inference, fallback) matches Some(cost) ==> {
            let data = response.get("data"@)->0;
            &&& cost.source == OpenRouterCostSource::Generation
            &&& cost.total_usd_exact == total
            &&& cost.upstream_inference_usd_exact == inference
            &&& data.get("model"@) matches Some(Json::String(model)) ==> cost.model == Some(model)
            &&& data.get("provider_name"@) matches Some(Json::String(name)) ==> cost.provider
                == Some(name)
            &&& cost.input_tokens == if count_in(data, "tokens_prompt"@) is Some {
                count_in(data, "tokens_prompt"@)
            } else {
                fallback.input_tokens
            }
            &&& cost.output_tokens == if count_in(data, "tokens_completion"@) is Some {
                count_in(data, "tokens_completion"@)
            } else {
                fallback.output_tokens
            }
            &&& cost.reasoning_tokens == if count_in(data, "tokens_reasoning"@) is Some {
                count_in(data, "tokens_reasoning"@)
            } else {
                fallback.reasoning_tokens
            }
            &&& cost.cache_read_tokens == count_in(data, "tokens_cached"@)
            &&& cost.cache_write_tokens == count_in(data, "tokens_cache_write"@)
        },
{
}

/// A completion of an evaluation turn is read as it was written.
pub proof fn law_evaluation_completions_are_read_as_written(response: Json)
    ensures
        response.get("error"@) is Some ==> evaluation::completion_of(response) is Err,
        items_in(response, "choices"@).len() == 0 ==> evaluation::completion_of(response) is Err,
        evaluation::completion_of(response) matches Ok(read) ==> {
            &&& retells(read.events, items_in(response, "choices"@)[0], "openrouter-call-"@)
            &&& response.get("usage"@) matches Some(usage) ==> read.usage.input_tokens == count_in(
                usage,
                "prompt_tokens"@,
            ) && read.usage.output_tokens == count_in(usage, "completion_tokens"@)
            &&& response.get("usage"@) is None ==> read.usage.input_tokens is None
                && read.usage.output_tokens is None
        },
        response.get("error"@) is None && items_in(response, "choices"@).len() > 0
            && evaluation::completion_of(response) is Err ==> openrouter::choice_events(
            items_in(response, "choices"@)[0],
        ) is Err,
{
    if items_in(response, "choices"@).len() > 0 {
        lemma_openrouter_choice(items_in(response, "choices"@)[0]);
    }
}

proof fn lemma_local_calls(calls: Seq<Json>)
    ensures
        local::read_calls(calls) matches Ok(events) ==> {
            &&& events.len() == calls.len()
            &&& forall|i: int|
                0 <= i < calls.len() ==> asks(
                    events[i],
                    #[trigger] calls[i],
                    i as nat,
                    "local-call-"@,
                )
        },
    decreases calls.len(),
{
    if calls.len() > 0 && local::read_calls(calls) is Ok {
        lemma_local_calls(calls.drop_last());
        let events = local::read_calls(calls)->Ok_0;
        let before = local::read_calls(calls.drop_last())->Ok_0;
        assert forall|i: int| 0 <= i < calls.len() implies asks(
            events[i],
            #[trigger] calls[i],
            i as nat,
            "local-call-"@,
        ) by {
            if i < calls.len() - 1 {
                assert(calls.drop_last()[i] == calls[i]);
                assert(events[i] == before[i]);
            }
        }
    }
}

proof fn lemma_local_choice(choice: Json)
    ensures
        local::choice_events(choice) matches Ok(events) ==> retells(
            events,
            choice,
            "local-call-"@,
        ),
{
    if let Some(message) = choice.get("message"@) {
        let calls = items_in(message, "tool_calls"@);
        lemma_local_calls(calls);
        if let Ok(events) = local::choice_events(choice) {
            assert(local::read_calls(calls) is Ok);
            let made = local::read_calls(calls)->Ok_0;
            let text = text_in(message, "content"@);
            let ahead = if text.len() > 0 {
                1int
            } else {
                0
            };
            assert forall|i: int| 0 <= i < calls.len() implies asks(
                events[ahead + i],
                #[trigger] calls[i],
                i as nat,
                "local-call-"@,
            ) by {
                assert(events[ahead + i] == made[i]);
            }
        }
    }
}

/// A completion of a local server is read as it was written: the events retell its first choice
/// and the counts are those of its usage report. A status that tells of no success is refused,
/// and so is a response with an error or without a choice.
pub proof fn law_local_completions_are_read_as_written(response: Json, status: u16)
    ensures
        !(200 <= status <= 299) ==> local::completion_of(response, status) is Err,
        response.get("error"@) is Some ==> local::completion_of(response, status) is Err,
        items_in(response, "choices"@).len() == 0 ==> local::completion_of(response, status)
            is Err,
        local::completion_of(response, status) matches Ok((events, usage)) ==> {
            &&& retells(events, items_in(response, "choices"@)[0], "local-call-"@)
            &&& response.get("usage"@) is None ==> usage.input_tokens is None
                && usage.output_tokens is None && usage.cache_read_tokens is None
            &&& response.get("usage"@) matches Some(report) ==> {
                &&& usage.input_tokens == count_in(report, "prompt_tokens"@)
                &&& usage.output_tokens == count_in(report, "completion_tokens"@)
                &&& report.get("prompt_tokens_details"@) matches Some(details)
                    ==> usage.cache_read_tokens == count_in(details, "cached_tokens"@)
            }
        },
{
    if items_in(response, "choices"@).len() > 0 {
        lemma_local_choice(items_in(response, "choices"@)[0]);
    }
}

/// A response of a local server whose parts all have their types is read.
pub proof fn law_sound_local_completions_are_read(response: Json, status: u16, text: Seq<char>)
    requires
        200 <= status <= 299,
        response.get("error"@) is None,
        response.get("usage"@) is None,
        items_in(response, "choices"@).len() > 0,
        items_in(response, "choices"@)[0].get("message"@) matches Some(Json::Object(_)),
        items_in(response, "choices"@)[0].get("message"@)->0.get("content"@) == Some(
            Json::String(text),
        ),
        items_in(response, "choices"@)[0].get("message"@)->0.get("tool_calls"@) is None,
        items_in(response, "choices"@)[0].get("finish_reason"@) is None,
    ensures
        local::completion_of(response, status) is Ok,
{
}

proof fn lemma_event_kinds()
    ensures
        "text-delta"@ != "tool-call"@,
        "text-delta"@ != "finish"@,
        "text-delta"@ != "error"@,
        "text-delta"@ != "abort"@,
        "text-delta"@ != "provider-metadata"@,
        "tool-call"@ != "finish"@,
        "tool-call"@ != "error"@,
        "tool-call"@ != "abort"@,
        "tool-call"@ != "provider-metadata"@,
        "finish"@ != "error"@,
        "finish"@ != "abort"@,
        "finish"@ != "provider-metadata"@,
        "error"@ != "abort"@,
        "error"@ != "provider-metadata"@,
        "abort"@ != "provider-metadata"@,
        "tool-calls"@ != "length"@,
        "text-delta"@.len() > 0,
        "tool-call"@.len() > 0,
        "finish"@.len() > 0,
        "error"@.len() > 0,
        "abort"@.len() > 0,
{
    reveal_strlit("text-delta");
    reveal_strlit("tool-call");
    reveal_strlit("finish");
    reveal_strlit("error");
    reveal_strlit("abort");
    reveal_strlit("provider-metadata");
    reveal_strlit("tool-calls");
    reveal_strlit("length");
    assert("text-delta"@.len() == 10);
    assert("tool-call"@.len() == 9);
    assert("finish"@.len() == 6);
    assert("error"@.len() == 5);
    assert("abort"@.len() == 5);
    assert("provider-metadata"@.len() == 17);
    assert("tool-calls"@.len() == 10);
    assert("length"@.len() == 6);
    assert("error"@[0] != "abort"@[0]);
}

/// A piece of text from the gateway is added behind what was read, as it was written.
pub proof fn law_gateway_text_is_read_as_written(state: NdjsonModel, event: Json)
    requires
        !state.terminal,
        event.get("type"@) == Some(Json::String("text-delta"@)),
    ensures
        match event.get("text"@) {
            Some(Json::String(text)) if text.len() > 0 => {
                &&& state.with_event(event) matches Ok(after)
                &&& after.events == state.events.push(StreamEventModel::TextDelta(text))
                &&& after.usage == state.usage
                &&& !after.terminal
            },
            _ => state.with_event(event) is Err,
        },
{
    lemma_event_kinds();
}

/// A call from the gateway is added behind what was read, with its identifier, its name and the
/// text of its input.
pub proof fn law_gateway_calls_are_read_as_written(
    state: NdjsonModel,
    event: Json,
    id: Seq<char>,
    name: Seq<char>,
    input: Json,
)
    requires
        !state.terminal,
        event.get("type"@) == Some(Json::String("tool-call"@)),
        event.get("toolCallId"@) == Some(Json::String(id)),
        event.get("toolName"@) == Some(Json::String(name)),
        event.get("input"@) == Some(input) || event.get("input"@) is None && event.get("args"@)
            == Some(input),
    ensures
        if id.len() > 0 && name.len() > 0 && input is Object {
            &&& state.with_event(event) matches Ok(after)
            &&& after.events == state.events.push(
                StreamEventModel::ToolCall(
                    CallModel { id, name, arguments: serde_to_string(input) },
                ),
            )
            &&& after.usage == state.usage
            &&& !after.terminal
        } else {
            state.with_event(event) is Err
        },
{
    lemma_event_kinds();
}

/// The end of a response from the gateway closes it with its reason, and its counts are those of
/// its usage report.
pub proof fn law_gateway_ends_are_read_as_written(state: NdjsonModel, event: Json)
    requires
        !state.terminal,
        event.get("type"@) == Some(Json::String("finish"@)),
    ensures
        ({
            let finish = event.get("finishReason"@);
            &&& state.with_event(event) matches Ok(after)
            &&& after.terminal
            &&& after.events == state.events.push(
                StreamEventModel::End(
                    if finish == Some(Json::String("tool-calls"@)) {
                        StopReason::ToolUse
                    } else if finish == Some(Json::String("length"@)) {
                        StopReason::Length
                    } else {
                        StopReason::EndTurn
                    },
                ),
            )
            &&& event.get("totalUsage"@) is None ==> after.usage.input_tokens is None
                && after.usage.output_tokens is None && after.usage.reasoning_tokens is None
            &&& event.get("totalUsage"@) matches Some(usage) ==> {
                &&& after.usage.input_tokens == count_in(usage, "inputTokens"@)
                &&& after.usage.output_tokens == count_in(usage, "outputTokens"@)
                &&& after.usage.reasoning_tokens == if count_in(usage, "reasoningTokens"@)
                    is Some {
                    count_in(usage, "reasoningTokens"@)
                } else {
                    count_in(usage, "reasoning_tokens"@)
                }
            }
        }),
{
    lemma_event_kinds();
}

/// A failure or an abort from the gateway closes the response as one.
pub proof fn law_gateway_failures_end_the_response(state: NdjsonModel, event: Json)
    requires
        !state.terminal,
        event.get("type"@) == Some(Json::String("error"@)) || event.get("type"@) == Some(
            Json::String("abort"@),
        ),
    ensures
        ({
            &&& state.with_event(event) matches Ok(after)
            &&& after.terminal
            &&& after.events.len() == state.events.len() + 1
            &&& after.events.drop_last() =~= state.events
            &&& event.get("type"@) == Some(Json::String("error"@)) ==> after.events.last() is Error
            &&& event.get("type"@) == Some(Json::String("abort"@)) ==> after.events.last()
                is Aborted
        }),
{
    lemma_event_kinds();
}

/// Nothing is read behind the end of a response: metadata may follow, and anything else is
/// refused.
pub proof fn law_nothing_follows_the_end(state: NdjsonModel, event: Json)
    requires
        state.terminal,
    ensures
        match state.with_event(event) {
            Ok(after) => after == state && event.get("type"@) == Some(
                Json::String("provider-metadata"@),
            ),
            Err(_) => true,
        },
        event.get("type"@) == Some(Json::String("provider-metadata"@)) ==> state.with_event(event)
            is Ok,
{
    reveal_strlit("provider-metadata");
    assert("provider-metadata"@.len() == 17);
}

/// The lines of a response are read in order, each by what was read before it: a line behind
/// others changes what they gave by its own event alone, a blank one by nothing, and one that
/// cannot be read is refused.
pub proof fn law_lines_are_read_in_order(lines: Seq<Seq<char>>, line: Seq<char>)
    ensures
        match commandcode::read_lines(lines) {
            Err(_) => commandcode::read_lines(lines.push(line)) is Err,
            Ok(before) => if is_blank(line) {
                commandcode::read_lines(lines.push(line)) == commandcode::read_lines(lines)
            } else {
                match serde_from_str(line) {
                    Err(_) => commandcode::read_lines(lines.push(line)) is Err,
                    Ok(event) => commandcode::read_lines(lines.push(line)) == before.with_event(
                        event,
                    ),
                }
            },
        },
        commandcode::read_lines(Seq::empty()) matches Ok(first) && first.events.len() == 0
            && !first.terminal && first.usage.input_tokens is None,
{
    assert(lines.push(line).drop_last() =~= lines);
}

proof fn lemma_wire_keys()
    ensures
        "role"@ != "content"@,
        "role"@ != "tool_calls"@,
        "role"@ != "tool_call_id"@,
        "content"@ != "tool_calls"@,
        "content"@ != "tool_call_id"@,
        "tool_calls"@ != "tool_call_id"@,
        "id"@ != "type"@,
        "id"@ != "function"@,
        "type"@ != "function"@,
        "name"@ != "arguments"@,
{
    reveal_strlit("role");
    reveal_strlit("content");
    reveal_strlit("tool_calls");
    reveal_strlit("tool_call_id");
    reveal_strlit("id");
    reveal_strlit("type");
    reveal_strlit("function");
    reveal_strlit("name");
    reveal_strlit("arguments");
    assert("role"@.len() == 4);
    assert("content"@.len() == 7);
    assert("tool_calls"@.len() == 10);
    assert("tool_call_id"@.len() == 12);
    assert("id"@.len() == 2);
    assert("type"@.len() == 4);
    assert("function"@.len() == 8);
    assert("name"@.len() == 4);
    assert("arguments"@.len() == 9);
}

/// Whether a wire form asks for a call: by its identifier, its name and its arguments.
pub open spec fn writes_call(form: Json, call: CallModel) -> bool {
    &&& form.get("id"@) == Some(Json::String(call.id))
    &&& form.get("type"@) == Some(Json::String("function"@))
    &&& form.get("function"@) matches Some(function)
    &&& function.get("name"@) == Some(Json::String(call.name))
    &&& function.get("arguments"@) == Some(Json::String(call.arguments))
}

/// Whether a wire form holds a message: its role and its text, the calls of an assistant in
/// order, and the call that a result answers.
pub open spec fn writes_message(form: Json, message: MessageModel) -> bool {
    match message {
        MessageModel::User { content, .. } => {
            &&& form.get("role"@) == Some(Json::String("user"@))
            &&& form.get("content"@) == Some(Json::String(content))
        },
        MessageModel::Assistant { content, tool_calls, .. } => {
            &&& form.get("role"@) == Some(Json::String("assistant"@))
            &&& content.len() > 0 ==> form.get("content"@) == Some(Json::String(content))
            &&& content.len() == 0 ==> form.get("content"@) == Some(Json::Null)
            &&& form.get("tool_calls"@) matches Some(Json::Array(forms))
            &&& forms.len() == tool_calls.len()
            &&& forall|i: int|
                0 <= i < tool_calls.len() ==> writes_call(forms[i], #[trigger] tool_calls[i])
        },
        MessageModel::ToolResult { tool_call_id, content, .. } => {
            &&& form.get("role"@) == Some(Json::String("tool"@))
            &&& form.get("tool_call_id"@) == Some(Json::String(tool_call_id))
            &&& form.get("content"@) == Some(Json::String(content))
        },
    }
}

proof fn lemma_written_message(message: MessageModel)
    ensures
        writes_message(openai::message_form(message), message),
{
    lemma_wire_keys();
    if let MessageModel::Assistant { content, tool_calls, .. } = message {
        let forms = tool_calls.map_values(|call: CallModel| openai::call_form(call));
        assert(openai::message_form(message).get("tool_calls"@) == Some(Json::Array(forms)));
    }
}

/// A transcript is written message by message, in order, and nothing of it is left out.
pub proof fn law_transcripts_are_written_whole(messages: Seq<MessageModel>)
    ensures
        openai::transcript_form(messages) matches Json::Array(forms) && forms.len()
            == messages.len() && forall|i: int|
            0 <= i < messages.len() ==> writes_message(forms[i], #[trigger] messages[i]),
{
    let forms = openai::transcript_form(messages)->Array_0;
    assert forall|i: int| 0 <= i < messages.len() implies writes_message(
        forms[i],
        #[trigger] messages[i],
    ) by {
        lemma_written_message(messages[i]);
    }
}

/// Whether a call of a response is whole: it names a tool and has the text of its arguments.
pub open spec fn whole_request(call: Json) -> bool {
    &&& call.get("function"@) matches Some(Json::Object(_))
    &&& call.get("function"@)->0.get("name"@) matches Some(Json::String(name)) && name.len() > 0
    &&& call.get("function"@)->0.get("arguments"@) matches Some(Json::String(_))
}

/// The calls of a completion of OpenRouter are read exactly where all of them are whole, and then
/// so is a choice that holds them.
pub proof fn law_whole_calls_are_read(calls: Seq<Json>)
    ensures
        openrouter::read_calls(calls) is Ok <==> forall|i: int|
            0 <= i < calls.len() ==> whole_request(#[trigger] calls[i]),
        forall|choice: Json|
            (#[trigger] openrouter::choice_events(choice)) is Ok <==> choice.get("message"@) is Some
                && choice.get("message"@)->0 is Object && openrouter::read_calls(
                items_in(choice.get("message"@)->0, "tool_calls"@),
            ) is Ok,
    decreases calls.len(),
{
    if calls.len() > 0 {
        let front = calls.drop_last();
        law_whole_calls_are_read(front);
        if forall|i: int| 0 <= i < calls.len() ==> whole_request(#[trigger] calls[i]) {
            assert forall|i: int| 0 <= i < front.len() implies whole_request(
                #[trigger] front[i],
            ) by {
                assert(front[i] == calls[i]);
            }
            assert(whole_request(calls[calls.len() - 1]));
        }
        if openrouter::read_calls(calls) is Ok {
            assert forall|i: int| 0 <= i < calls.len() implies whole_request(
                #[trigger] calls[i],
            ) by {
                if i < front.len() {
                    assert(whole_request(front[i]));
                }
            }
        }
    }
    assert forall|choice: Json|
        (#[trigger] openrouter::choice_events(choice)) is Ok <==> choice.get("message"@) is Some
            && choice.get("message"@)->0 is Object && openrouter::read_calls(
            items_in(choice.get("message"@)->0, "tool_calls"@),
        ) is Ok by {
        if choice.get("message"@) is Some {
            let message = choice.get("message"@)->0;
            assert(openrouter::calls_of(message) == items_in(message, "tool_calls"@));
        }
    }
}

/// Whether a call of a local server is whole: it names a tool, its arguments are a text that is
/// not empty, and its identifier, where it has one, is a text.
pub open spec fn whole_local_request(call: Json) -> bool {
    &&& call.get("function"@) matches Some(Json::Object(_))
    &&& call.get("function"@)->0.get("name"@) matches Some(Json::String(name)) && name.len() > 0
    &&& call.get("function"@)->0.get("arguments"@) matches Some(Json::String(arguments))
        && arguments.len() > 0
    &&& call.get("id"@) is None || call.get("id"@) == Some(Json::Null) || call.get("id"@)->0
        is String
}

/// The calls of a local completion are read exactly where all of them are whole.
pub proof fn law_whole_local_calls_are_read(calls: Seq<Json>)
    ensures
        local::read_calls(calls) is Ok <==> forall|i: int|
            0 <= i < calls.len() ==> whole_local_request(#[trigger] calls[i]),
    decreases calls.len(),
{
    if calls.len() > 0 {
        let front = calls.drop_last();
        law_whole_local_calls_are_read(front);
        if forall|i: int| 0 <= i < calls.len() ==> whole_local_request(#[trigger] calls[i]) {
            assert forall|i: int| 0 <= i < front.len() implies whole_local_request(
                #[trigger] front[i],
            ) by {
                assert(front[i] == calls[i]);
            }
            assert(whole_local_request(calls[calls.len() - 1]));
        }
        if local::read_calls(calls) is Ok {
            assert forall|i: int| 0 <= i < calls.len() implies whole_local_request(
                #[trigger] calls[i],
            ) by {
                if i < front.len() {
                    assert(whole_local_request(front[i]));
                }
            }
        }
    }
}

/// A response of a local server with whole calls is read, whatever it reports of its usage in
/// counts.
pub proof fn law_whole_local_completions_are_read(response: Json, status: u16)
    requires
        200 <= status <= 299,
        response.get("error"@) is None,
        items_in(response, "choices"@).len() > 0,
        ({
            let choice = items_in(response, "choices"@)[0];
            &&& choice.get("message"@) matches Some(Json::Object(_))
            &&& choice.get("finish_reason"@) is None || choice.get("finish_reason"@)->0 is String
            &&& choice.get("message"@)->0.get("content"@) is None || choice.get(
                "message"@,
            )->0.get("content"@)->0 is String || choice.get("message"@)->0.get("content"@)->0
                is Null
            &&& choice.get("message"@)->0.get("tool_calls"@) is None || choice.get(
                "message"@,
            )->0.get("tool_calls"@)->0 is Array
            &&& forall|i: int|
                0 <= i < items_in(choice.get("message"@)->0, "tool_calls"@).len()
                    ==> whole_local_request(
                    #[trigger] items_in(choice.get("message"@)->0, "tool_calls"@)[i],
                )
        }),
        response.get("usage"@) is None || (response.get("usage"@)->0 is Object && response.get(
            "usage"@,
        )->0.get("prompt_tokens_details"@) is None && (response.get("usage"@)->0.get(
            "prompt_tokens"@,
        ) is None || count_in(response.get("usage"@)->0, "prompt_tokens"@) is Some) && (
        response.get("usage"@)->0.get("completion_tokens"@) is None || count_in(
            response.get("usage"@)->0,
            "completion_tokens"@,
        ) is Some)),
    ensures
        local::completion_of(response, status) is Ok,
{
    let choice = items_in(response, "choices"@)[0];
    let calls = items_in(choice.get("message"@)->0, "tool_calls"@);
    law_whole_local_calls_are_read(calls);
    let none: Seq<Json> = Seq::empty();
    assert(local::read_calls(none) is Ok);
}

} // verus!
