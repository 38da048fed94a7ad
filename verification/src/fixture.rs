//! Declarative parity fixtures.
//!
//! A fixture scripts one agent: its setup, the host's tool responses and hook rules, the
//! model's turns, and the actions of the user. Its run has a canonical result. Reading a
//! fixture, answering from its script, and writing the result are done here; the host drives
//! the runs. There is no network or provider capability.

use crate::json::{member, serde_from_str, serde_to_string, Json, JsonObject, JsonValue};
use crate::model::{duplicate_all, Duplicate};
use crate::queue::QueueMode;
use crate::scheduler::{ModelStream, ModelStreamEvent, StreamEventModel};
use crate::state::{
    AssistantToolCall, CallModel, SerializedJson, StopReason, ThinkingLevel, ToolCallId,
};
use crate::text::{debug_quoted, digits, joined, push_number, quoted, same};
use crate::tool::{ToolCall, ToolExecutionMode};
use vstd::prelude::*;

verus! {

broadcast use crate::model::group_views;

/// A part of a fixture that was read, or the diagnostic for it.
pub type Read<T> = Result<T, Seq<char>>;

/// Items that were read one by one, or the first diagnostic.
pub open spec fn collected<T>(items: Seq<Json>, read: spec_fn(Json, nat) -> Read<T>) -> Read<Seq<T>>
    decreases items.len(),
{
    if items.len() == 0 {
        Ok(Seq::empty())
    } else {
        match collected(items.drop_last(), read) {
            Err(error) => Err(error),
            Ok(before) => match read(items.last(), (items.len() - 1) as nat) {
                Err(error) => Err(error),
                Ok(value) => Ok(before.push(value)),
            },
        }
    }
}

proof fn lemma_collected_prefix<T>(items: Seq<Json>, read: spec_fn(Json, nat) -> Read<T>, k: int)
    requires
        0 <= k <= items.len(),
        collected(items.take(k), read) is Err,
    ensures
        collected(items, read) == collected(items.take(k), read),
    decreases items.len() - k,
{
    if k == items.len() {
        assert(items.take(k) =~= items);
    } else {
        assert(items.take(k + 1).drop_last() =~= items.take(k));
        lemma_collected_prefix(items, read, k + 1);
    }
}

/// A required member.
pub open spec fn field_of(object: Map<Seq<char>, Json>, name: Seq<char>) -> Read<Json> {
    match member(object, name) {
        Some(value) => Ok(value),
        None => Err("fixture is missing required field "@ + debug_quoted(name)),
    }
}

/// The members of an object.
pub open spec fn object_of(value: Json, path: Seq<char>) -> Read<Map<Seq<char>, Json>> {
    match value {
        Json::Object(object) => Ok(object),
        _ => Err(path + " must be an object"@),
    }
}

/// The items of an array.
pub open spec fn array_of(value: Json, path: Seq<char>) -> Read<Seq<Json>> {
    match value {
        Json::Array(items) => Ok(items),
        _ => Err(path + " must be an array"@),
    }
}

/// The members of a required member.
pub open spec fn object_field(
    object: Map<Seq<char>, Json>,
    name: Seq<char>,
    path: Seq<char>,
) -> Read<Map<Seq<char>, Json>> {
    match field_of(object, name) {
        Err(error) => Err(error),
        Ok(value) => object_of(value, path),
    }
}

/// The items of a required member.
pub open spec fn array_field(
    object: Map<Seq<char>, Json>,
    name: Seq<char>,
    path: Seq<char>,
) -> Read<Seq<Json>> {
    match field_of(object, name) {
        Err(error) => Err(error),
        Ok(value) => array_of(value, path),
    }
}

/// The text of a required member.
pub open spec fn text_field(object: Map<Seq<char>, Json>, name: Seq<char>) -> Read<Seq<char>> {
    match field_of(object, name) {
        Err(error) => Err(error),
        Ok(Json::String(text)) => Ok(text),
        Ok(_) => Err("fixture field "@ + debug_quoted(name) + " must be a string"@),
    }
}

/// The boolean of a required member.
pub open spec fn flag_field(object: Map<Seq<char>, Json>, name: Seq<char>) -> Read<bool> {
    match field_of(object, name) {
        Err(error) => Err(error),
        Ok(Json::Bool(flag)) => Ok(flag),
        Ok(_) => Err("fixture field "@ + debug_quoted(name) + " must be a boolean"@),
    }
}

/// The count of a required member.
pub open spec fn count_field(object: Map<Seq<char>, Json>, name: Seq<char>) -> Read<u64> {
    match field_of(object, name) {
        Err(error) => Err(error),
        Ok(value) => match value.natural() {
            Some(n) => Ok(n),
            None => Err(
                "fixture field "@ + debug_quoted(name) + " must be a non-negative integer"@,
            ),
        },
    }
}

fn field<'a>(object: &'a JsonObject, name: &str) -> (r: Result<&'a JsonValue, String>)
    ensures
        match r {
            Ok(value) => field_of(object@, name@) == Ok::<Json, Seq<char>>(value@),
            Err(error) => field_of(object@, name@) == Err::<Json, Seq<char>>(error@),
        },
{
    match object.get(name) {
        Some(value) => Ok(value),
        None => Err(joined("fixture is missing required field ", quoted(name).as_str())),
    }
}

fn object<'a>(value: &'a JsonValue, path: &str) -> (r: Result<&'a JsonObject, String>)
    ensures
        match r {
            Ok(object) => object_of(value@, path@) == Ok::<_, Seq<char>>(object@),
            Err(error) => object_of(value@, path@) == Err::<Map<Seq<char>, Json>, Seq<char>>(
                error@,
            ),
        },
{
    match value.as_object() {
        Some(object) => Ok(object),
        None => Err(joined(path, " must be an object")),
    }
}

fn array<'a>(value: &'a JsonValue, path: &str) -> (r: Result<&'a Vec<JsonValue>, String>)
    ensures
        match r {
            Ok(items) => array_of(value@, path@) == Ok::<_, Seq<char>>(
                crate::model::views(items@),
            ),
            Err(error) => array_of(value@, path@) == Err::<Seq<Json>, Seq<char>>(error@),
        },
{
    match value.as_array() {
        Some(items) => Ok(items),
        None => Err(joined(path, " must be an array")),
    }
}

fn inner_object<'a>(outer: &'a JsonObject, name: &str, path: &str) -> (r: Result<
    &'a JsonObject,
    String,
>)
    ensures
        match r {
            Ok(object) => object_field(outer@, name@, path@) == Ok::<_, Seq<char>>(object@),
            Err(error) => object_field(outer@, name@, path@) == Err::<
                Map<Seq<char>, Json>,
                Seq<char>,
            >(error@),
        },
{
    match field(outer, name) {
        Err(error) => Err(error),
        Ok(value) => object(value, path),
    }
}

fn inner_array<'a>(outer: &'a JsonObject, name: &str, path: &str) -> (r: Result<
    &'a Vec<JsonValue>,
    String,
>)
    ensures
        match r {
            Ok(items) => array_field(outer@, name@, path@) == Ok::<_, Seq<char>>(
                crate::model::views(items@),
            ),
            Err(error) => array_field(outer@, name@, path@) == Err::<Seq<Json>, Seq<char>>(
                error@,
            ),
        },
{
    match field(outer, name) {
        Err(error) => Err(error),
        Ok(value) => array(value, path),
    }
}

fn misfit(name: &str, expected: &str) -> (r: String)
    ensures
        r@ == "fixture field "@ + debug_quoted(name@) + expected@,
{
    let mut out = joined("fixture field ", quoted(name).as_str());
    out.push_str(expected);
    out
}

fn string_field<'a>(object: &'a JsonObject, name: &str) -> (r: Result<&'a str, String>)
    ensures
        match r {
            Ok(text) => text_field(object@, name@) == Ok::<Seq<char>, Seq<char>>(text@),
            Err(error) => text_field(object@, name@) == Err::<Seq<char>, Seq<char>>(error@),
        },
{
    match field(object, name) {
        Err(error) => Err(error),
        Ok(value) => match value.as_str() {
            Some(text) => Ok(text),
            None => Err(misfit(name, " must be a string")),
        },
    }
}

fn bool_field(object: &JsonObject, name: &str) -> (r: Result<bool, String>)
    ensures
        match r {
            Ok(flag) => flag_field(object@, name@) == Ok::<bool, Seq<char>>(flag),
            Err(error) => flag_field(object@, name@) == Err::<bool, Seq<char>>(error@),
        },
{
    match field(object, name) {
        Err(error) => Err(error),
        Ok(value) => match value.as_bool() {
            Some(flag) => Ok(flag),
            None => Err(misfit(name, " must be a boolean")),
        },
    }
}

fn number_field(object: &JsonObject, name: &str) -> (r: Result<u64, String>)
    ensures
        match r {
            Ok(n) => count_field(object@, name@) == Ok::<u64, Seq<char>>(n),
            Err(error) => count_field(object@, name@) == Err::<u64, Seq<char>>(error@),
        },
{
    match field(object, name) {
        Err(error) => Err(error),
        Ok(value) => match value.as_u64() {
            Some(n) => Ok(n),
            None => Err(misfit(name, " must be a non-negative integer")),
        },
    }
}

/// Token counts of a scripted turn.
#[derive(Clone, Copy, Debug, Eq, PartialEq, Structural)]
pub struct FixtureUsage {
    /// Input tokens.
    pub input: u64,
    /// Output tokens.
    pub output: u64,
    /// Cached input tokens.
    pub cache_read: u64,
    /// Input tokens written to the cache.
    pub cache_write: u64,
    /// All tokens.
    pub total_tokens: u64,
}

/// The token counts of a value.
pub open spec fn read_usage(value: Json) -> Read<FixtureUsage> {
    match object_of(value, "usage"@) {
        Err(error) => Err(error),
        Ok(usage) => match count_field(usage, "input"@) {
            Err(error) => Err(error),
            Ok(input) => match count_field(usage, "output"@) {
                Err(error) => Err(error),
                Ok(output) => match count_field(usage, "cache_read"@) {
                    Err(error) => Err(error),
                    Ok(cache_read) => match count_field(usage, "cache_write"@) {
                        Err(error) => Err(error),
                        Ok(cache_write) => match count_field(usage, "total_tokens"@) {
                            Err(error) => Err(error),
                            Ok(total_tokens) => Ok(
                                FixtureUsage {
                                    input,
                                    output,
                                    cache_read,
                                    cache_write,
                                    total_tokens,
                                },
                            ),
                        },
                    },
                },
            },
        },
    }
}

impl FixtureUsage {
    fn parse(value: &JsonValue) -> (r: Result<Self, String>)
        ensures
            match r {
                Ok(usage) => read_usage(value@) == Ok::<FixtureUsage, Seq<char>>(usage),
                Err(error) => read_usage(value@) == Err::<FixtureUsage, Seq<char>>(error@),
            },
    {
        let usage = match object(value, "usage") {
            Err(error) => return Err(error),
            Ok(usage) => usage,
        };
        let input = match number_field(usage, "input") {
            Err(error) => return Err(error),
            Ok(n) => n,
        };
        let output = match number_field(usage, "output") {
            Err(error) => return Err(error),
            Ok(n) => n,
        };
        let cache_read = match number_field(usage, "cache_read") {
            Err(error) => return Err(error),
            Ok(n) => n,
        };
        let cache_write = match number_field(usage, "cache_write") {
            Err(error) => return Err(error),
            Ok(n) => n,
        };
        let total_tokens = match number_field(usage, "total_tokens") {
            Err(error) => return Err(error),
            Ok(n) => n,
        };
        Ok(FixtureUsage { input, output, cache_read, cache_write, total_tokens })
    }
}

/// A scripted response of a host tool.
#[derive(Clone, Debug, Eq, PartialEq)]
pub struct FixtureToolResponse {
    /// Arguments that it answers.
    pub arguments: SerializedJson,
    /// Result text.
    pub content: String,
    /// Whether the result is an error.
    pub is_error: bool,
    /// Whether the tool lets another tool run first.
    pub yield_once: bool,
    /// Partial updates before the result.
    pub updates: Vec<String>,
}

/// Model of a [`FixtureToolResponse`].
#[verifier::ext_equal]
pub struct ResponseModel {
    pub arguments: Seq<char>,
    pub content: Seq<char>,
    pub is_error: bool,
    pub yield_once: bool,
    pub updates: Seq<Seq<char>>,
}

impl View for FixtureToolResponse {
    type V = ResponseModel;

    open spec fn view(&self) -> ResponseModel {
        ResponseModel {
            arguments: self.arguments@,
            content: self.content@,
            is_error: self.is_error,
            yield_once: self.yield_once,
            updates: crate::model::views(self.updates@),
        }
    }
}

impl Duplicate for FixtureToolResponse {
    fn duplicate(&self) -> (r: Self) {
        FixtureToolResponse {
            arguments: self.arguments.duplicate(),
            content: self.content.clone(),
            is_error: self.is_error,
            yield_once: self.yield_once,
            updates: duplicate_all(&self.updates),
        }
    }
}

/// One scripted update.
pub open spec fn read_update(value: Json, index: nat) -> Read<Seq<char>> {
    match value {
        Json::String(text) => Ok(text),
        _ => Err("host tool call updates["@ + digits(index) + "] must be a string"@),
    }
}

/// The scripted updates of a response.
pub open spec fn read_updates(value: Option<Json>) -> Read<Seq<Seq<char>>> {
    match value {
        None => Ok(Seq::empty()),
        Some(Json::Array(items)) => collected(items, |v: Json, i: nat| read_update(v, i)),
        Some(_) => Err("host tool call field \"updates\" must be an array"@),
    }
}

/// Whether a response lets another tool run first.
pub open spec fn read_yield(value: Option<Json>) -> Read<bool> {
    match value {
        None => Ok(false),
        Some(Json::Bool(flag)) => Ok(flag),
        Some(_) => Err("host tool call field \"yield_once\" must be a boolean"@),
    }
}

/// The only text part of a result.
pub open spec fn read_content(result: Map<Seq<char>, Json>) -> Read<Map<Seq<char>, Json>> {
    match array_field(result, "content"@, "host tool result.content"@) {
        Err(error) => Err(error),
        Ok(content) => if content.len() != 1 {
            Err("the V0 fixture adapter supports exactly one text tool-result content part"@)
        } else {
            match object_of(content[0], "host tool result.content[0]"@) {
                Err(error) => Err(error),
                Ok(text) => match text_field(text, "type"@) {
                    Err(error) => Err(error),
                    Ok(kind) => if kind != "text"@ {
                        Err(
                            "the V0 fixture adapter supports text tool-result content only"@,
                        )
                    } else {
                        Ok(text)
                    },
                },
            }
        },
    }
}

/// A scripted response.
pub open spec fn read_response(value: Json) -> Read<ResponseModel> {
    match object_of(value, "host tool call"@) {
        Err(error) => Err(error),
        Ok(call) => match object_field(call, "result"@, "host tool result"@) {
            Err(error) => Err(error),
            Ok(result) => match read_content(result) {
                Err(error) => Err(error),
                Ok(part) => match field_of(call, "arguments"@) {
                    Err(error) => Err(error),
                    Ok(arguments) => match text_field(part, "text"@) {
                        Err(error) => Err(error),
                        Ok(content) => match flag_field(result, "is_error"@) {
                            Err(error) => Err(error),
                            Ok(is_error) => match read_yield(member(call, "yield_once"@)) {
                                Err(error) => Err(error),
                                Ok(yield_once) => match read_updates(member(call, "updates"@)) {
                                    Err(error) => Err(error),
                                    Ok(updates) => Ok(
                                        ResponseModel {
                                            arguments: serde_to_string(arguments),
                                            content,
                                            is_error,
                                            yield_once,
                                            updates,
                                        },
                                    ),
                                },
                            },
                        },
                    },
                },
            },
        },
    }
}

fn parse_updates(value: Option<&JsonValue>) -> (r: Result<Vec<String>, String>)
    ensures
        ({
            let read = read_updates(crate::provider::local::seen(value));
            match r {
                Ok(updates) => read == Ok::<_, Seq<char>>(crate::model::views(updates@)),
                Err(error) => read == Err::<Seq<Seq<char>>, Seq<char>>(error@),
            }
        }),
{
    let mut updates: Vec<String> = Vec::new();
    assert(crate::model::views(updates@) =~= Seq::<Seq<char>>::empty());
    let items = match value {
        None => {
            return Ok(updates);
        },
        Some(value) => match value.as_array() {
            None => {
                return Err("host tool call field \"updates\" must be an array".to_owned());
            },
            Some(items) => items,
        },
    };
    let ghost all = crate::model::views(items@);
    let ghost read = |v: Json, i: nat| read_update(v, i);
    let mut i: usize = 0;
    while i < items.len()
        invariant
            i <= items@.len(),
            all == crate::model::views(items@),
            read == (|v: Json, i: nat| read_update(v, i)),
            read_updates(crate::provider::local::seen(value)) == collected(all, read),
            collected(all.take(i as int), read) == Ok::<Seq<Seq<char>>, Seq<char>>(
                crate::model::views(updates@),
            ),
        decreases items.len() - i,
    {
        proof {
            assert(all.take(i + 1).drop_last() =~= all.take(i as int));
            assert(all.take(i + 1).last() == items@[i as int]@);
        }
        match items[i].as_str() {
            Some(text) => updates.push(text.to_owned()),
            None => {
                let mut error = "host tool call updates[".to_owned();
                push_number(&mut error, i as u64);
                error.push_str("] must be a string");
                proof {
                    lemma_collected_prefix(all, read, i + 1);
                }
                return Err(error);
            },
        }
        i = i + 1;
    }
    assert(all.take(i as int) =~= all);
    Ok(updates)
}

fn content_part<'a>(result: &'a JsonObject) -> (r: Result<&'a JsonObject, String>)
    ensures
        match r {
            Ok(part) => read_content(result@) == Ok::<_, Seq<char>>(part@),
            Err(error) => read_content(result@) == Err::<Map<Seq<char>, Json>, Seq<char>>(error@),
        },
{
    let content = match inner_array(result, "content", "host tool result.content") {
        Err(error) => return Err(error),
        Ok(content) => content,
    };
    if content.len() != 1 {
        return Err(
            "the V0 fixture adapter supports exactly one text tool-result content part".to_owned(),
        );
    }
    assert(crate::model::views(content@)[0] == content@[0]@);
    let text = match object(&content[0], "host tool result.content[0]") {
        Err(error) => return Err(error),
        Ok(text) => text,
    };
    match string_field(text, "type") {
        Err(error) => Err(error),
        Ok(kind) => if same(kind, "text") {
            Ok(text)
        } else {
            Err("the V0 fixture adapter supports text tool-result content only".to_owned())
        },
    }
}

fn parse_tool_response(value: &JsonValue) -> (r: Result<FixtureToolResponse, String>)
    ensures
        match r {
            Ok(response) => read_response(value@) == Ok::<ResponseModel, Seq<char>>(response@),
            Err(error) => read_response(value@) == Err::<ResponseModel, Seq<char>>(error@),
        },
{
    let call = match object(value, "host tool call") {
        Err(error) => return Err(error),
        Ok(call) => call,
    };
    let result = match inner_object(call, "result", "host tool result") {
        Err(error) => return Err(error),
        Ok(result) => result,
    };
    let part = match content_part(result) {
        Err(error) => return Err(error),
        Ok(part) => part,
    };
    let arguments = match field(call, "arguments") {
        Err(error) => return Err(error),
        Ok(arguments) => arguments.to_json_string(),
    };
    let content = match string_field(part, "text") {
        Err(error) => return Err(error),
        Ok(text) => text.to_owned(),
    };
    let is_error = match bool_field(result, "is_error") {
        Err(error) => return Err(error),
        Ok(flag) => flag,
    };
    let yield_once = match call.get("yield_once") {
        None => false,
        Some(value) => match value.as_bool() {
            Some(flag) => flag,
            None => {
                return Err("host tool call field \"yield_once\" must be a boolean".to_owned());
            },
        },
    };
    let updates = match parse_updates(call.get("updates")) {
        Err(error) => return Err(error),
        Ok(updates) => updates,
    };
    Ok(
        FixtureToolResponse {
            arguments: SerializedJson::new(arguments),
            content,
            is_error,
            yield_once,
            updates,
        },
    )
}

/// The scripted responses of a host tool.
pub open spec fn read_responses(values: Seq<Json>) -> Read<Seq<ResponseModel>> {
    collected(values, |v: Json, i: nat| read_response(v))
}

fn parse_responses(values: &Vec<JsonValue>) -> (r: Result<Vec<FixtureToolResponse>, String>)
    ensures
        match r {
            Ok(responses) => read_responses(crate::model::views(values@)) == Ok::<_, Seq<char>>(
                crate::model::views(responses@),
            ),
            Err(error) => read_responses(crate::model::views(values@)) == Err::<
                Seq<ResponseModel>,
                Seq<char>,
            >(error@),
        },
{
    let ghost all = crate::model::views(values@);
    let ghost read = |v: Json, i: nat| read_response(v);
    let mut responses: Vec<FixtureToolResponse> = Vec::new();
    assert(crate::model::views(responses@) =~= Seq::<ResponseModel>::empty());
    let mut i: usize = 0;
    while i < values.len()
        invariant
            i <= values@.len(),
            all == crate::model::views(values@),
            read == (|v: Json, i: nat| read_response(v)),
            collected(all.take(i as int), read) == Ok::<Seq<ResponseModel>, Seq<char>>(
                crate::model::views(responses@),
            ),
        decreases values.len() - i,
    {
        proof {
            assert(all.take(i + 1).drop_last() =~= all.take(i as int));
            assert(all.take(i + 1).last() == values@[i as int]@);
        }
        match parse_tool_response(&values[i]) {
            Err(error) => {
                proof {
                    lemma_collected_prefix(all, read, i + 1);
                }
                return Err(error);
            },
            Ok(response) => responses.push(response),
        }
        i = i + 1;
    }
    assert(all.take(i as int) =~= all);
    Ok(responses)
}

/// The scripted responses of one host tool.
#[derive(Debug)]
pub struct HostTool {
    /// Name of the tool.
    pub name: String,
    /// Responses, in order.
    pub responses: Vec<FixtureToolResponse>,
}

/// Model of a [`HostTool`].
#[verifier::ext_equal]
pub struct HostToolModel {
    pub name: Seq<char>,
    pub responses: Seq<ResponseModel>,
}

impl View for HostTool {
    type V = HostToolModel;

    open spec fn view(&self) -> HostToolModel {
        HostToolModel { name: self.name@, responses: crate::model::views(self.responses@) }
    }
}

/// The responses of the host tool with a name, if it is scripted.
pub open spec fn responses_of(tools: Seq<HostToolModel>, name: Seq<char>) -> Option<
    Seq<ResponseModel>,
>
    decreases tools.len(),
{
    if tools.len() == 0 {
        None
    } else if tools.last().name == name {
        Some(tools.last().responses)
    } else {
        responses_of(tools.drop_last(), name)
    }
}

/// The scripted host tools. No name may be scripted twice.
pub open spec fn read_host_tools(entries: Seq<Json>) -> Read<Seq<HostToolModel>>
    decreases entries.len(),
{
    if entries.len() == 0 {
        Ok(Seq::empty())
    } else {
        match read_host_tools(entries.drop_last()) {
            Err(error) => Err(error),
            Ok(before) => match object_of(entries.last(), "host.tools entry"@) {
                Err(error) => Err(error),
                Ok(entry) => match text_field(entry, "name"@) {
                    Err(error) => Err(error),
                    Ok(name) => if responses_of(before, name) is Some {
                        Err(
                            "host.tools["@ + digits((entries.len() - 1) as nat) + "] repeats "@
                                + debug_quoted(name),
                        )
                    } else {
                        match array_field(entry, "calls"@, "host.tools calls"@) {
                            Err(error) => Err(error),
                            Ok(calls) => match read_responses(calls) {
                                Err(error) => Err(error),
                                Ok(responses) => Ok(
                                    before.push(HostToolModel { name, responses }),
                                ),
                            },
                        }
                    },
                },
            },
        }
    }
}

proof fn lemma_host_prefix(entries: Seq<Json>, k: int)
    requires
        0 <= k <= entries.len(),
        read_host_tools(entries.take(k)) is Err,
    ensures
        read_host_tools(entries) == read_host_tools(entries.take(k)),
    decreases entries.len() - k,
{
    if k == entries.len() {
        assert(entries.take(k) =~= entries);
    } else {
        assert(entries.take(k + 1).drop_last() =~= entries.take(k));
        lemma_host_prefix(entries, k + 1);
    }
}

fn find_responses<'a>(tools: &'a Vec<HostTool>, name: &str) -> (r: Option<
    &'a Vec<FixtureToolResponse>,
>)
    ensures
        match r {
            Some(responses) => responses_of(crate::model::views(tools@), name@) == Some(
                crate::model::views(responses@),
            ),
            None => responses_of(crate::model::views(tools@), name@) is None,
        },
{
    let ghost all = crate::model::views(tools@);
    let mut i: usize = tools.len();
    assert(all.take(i as int) =~= all);
    while i > 0
        invariant
            i <= tools@.len(),
            all == crate::model::views(tools@),
            responses_of(all, name@) == responses_of(all.take(i as int), name@),
        decreases i,
    {
        proof {
            assert(all.take(i as int).drop_last() =~= all.take(i - 1));
            assert(all.take(i as int).last() == tools@[i - 1]@);
        }
        if same(tools[i - 1].name.as_str(), name) {
            return Some(&tools[i - 1].responses);
        }
        i = i - 1;
    }
    None
}

fn parse_host_tool(entry: &JsonValue, index: usize, before: &Vec<HostTool>) -> (r: Result<
    HostTool,
    String,
>)
    ensures
        forall|entries: Seq<Json>|
            #![trigger read_host_tools(entries)]
            entries.len() == index + 1 && entries.last() == entry@ && read_host_tools(
                entries.drop_last(),
            ) == Ok::<Seq<HostToolModel>, Seq<char>>(crate::model::views(before@)) ==> (match r {
                Ok(tool) => read_host_tools(entries) == Ok::<Seq<HostToolModel>, Seq<char>>(
                    crate::model::views(before@).push(tool@),
                ),
                Err(error) => read_host_tools(entries) == Err::<Seq<HostToolModel>, Seq<char>>(
                    error@,
                ),
            }),
{
    let entry = match object(entry, "host.tools entry") {
        Err(error) => return Err(error),
        Ok(entry) => entry,
    };
    let name = match string_field(entry, "name") {
        Err(error) => return Err(error),
        Ok(name) => name.to_owned(),
    };
    if find_responses(before, name.as_str()).is_some() {
        let mut error = "host.tools[".to_owned();
        push_number(&mut error, index as u64);
        error.push_str("] repeats ");
        error.push_str(quoted(name.as_str()).as_str());
        return Err(error);
    }
    let calls = match inner_array(entry, "calls", "host.tools calls") {
        Err(error) => return Err(error),
        Ok(calls) => calls,
    };
    match parse_responses(calls) {
        Err(error) => Err(error),
        Ok(responses) => Ok(HostTool { name, responses }),
    }
}

fn parse_host_tools(entries: &Vec<JsonValue>) -> (r: Result<Vec<HostTool>, String>)
    ensures
        match r {
            Ok(tools) => read_host_tools(crate::model::views(entries@)) == Ok::<_, Seq<char>>(
                crate::model::views(tools@),
            ),
            Err(error) => read_host_tools(crate::model::views(entries@)) == Err::<
                Seq<HostToolModel>,
                Seq<char>,
            >(error@),
        },
{
    let ghost all = crate::model::views(entries@);
    let mut tools: Vec<HostTool> = Vec::new();
    assert(crate::model::views(tools@) =~= Seq::<HostToolModel>::empty());
    let mut i: usize = 0;
    while i < entries.len()
        invariant
            i <= entries@.len(),
            all == crate::model::views(entries@),
            read_host_tools(all.take(i as int)) == Ok::<Seq<HostToolModel>, Seq<char>>(
                crate::model::views(tools@),
            ),
        decreases entries.len() - i,
    {
        proof {
            assert(all.take(i + 1).drop_last() =~= all.take(i as int));
            assert(all.take(i + 1).last() == entries@[i as int]@);
        }
        match parse_host_tool(&entries[i], i, &tools) {
            Err(error) => {
                proof {
                    assert(read_host_tools(all.take(i + 1)) is Err);
                    lemma_host_prefix(all, i + 1);
                }
                return Err(error);
            },
            Ok(tool) => {
                assert(read_host_tools(all.take(i + 1)) is Ok);
                tools.push(tool);
            },
        }
        i = i + 1;
    }
    assert(all.take(i as int) =~= all);
    Ok(tools)
}


/// One tool of a fixture, with its scripted responses.
#[derive(Debug)]
pub struct FixtureToolSpec {
    /// Stable name.
    pub name: String,
    /// Description for the model.
    pub description: String,
    /// Scheduling mode.
    pub execution_mode: ToolExecutionMode,
    /// JSON Schema of the arguments.
    pub parameters: SerializedJson,
    /// Scripted responses, in order.
    pub responses: Vec<FixtureToolResponse>,
}

/// Model of a [`FixtureToolSpec`].
#[verifier::ext_equal]
pub struct SpecModel {
    pub name: Seq<char>,
    pub description: Seq<char>,
    pub execution_mode: ToolExecutionMode,
    pub parameters: Seq<char>,
    pub responses: Seq<ResponseModel>,
}

impl View for FixtureToolSpec {
    type V = SpecModel;

    open spec fn view(&self) -> SpecModel {
        SpecModel {
            name: self.name@,
            description: self.description@,
            execution_mode: self.execution_mode,
            parameters: self.parameters@,
            responses: crate::model::views(self.responses@),
        }
    }
}

/// Whether a tool with a name is among the tools.
pub open spec fn has_tool(tools: Seq<SpecModel>, name: Seq<char>) -> bool {
    exists|i: int| 0 <= i < tools.len() && (#[trigger] tools[i]).name == name
}

/// The scheduling mode of a tool.
pub open spec fn read_execution_mode(value: Option<Json>) -> Read<ToolExecutionMode> {
    match value {
        None => Ok(ToolExecutionMode::Parallel),
        Some(Json::String(mode)) => if mode == "parallel"@ {
            Ok(ToolExecutionMode::Parallel)
        } else if mode == "sequential"@ {
            Ok(ToolExecutionMode::Sequential)
        } else {
            Err("setup tool field \"execution_mode\" must be parallel or sequential"@)
        },
        Some(_) => Err("setup tool field \"execution_mode\" must be parallel or sequential"@),
    }
}

/// The rest of a tool whose name is known.
pub open spec fn read_tool_named(
    entry: Map<Seq<char>, Json>,
    name: Seq<char>,
    host: Seq<HostToolModel>,
) -> Read<SpecModel> {
    match text_field(entry, "description"@) {
        Err(error) => Err(error),
        Ok(description) => match read_execution_mode(member(entry, "execution_mode"@)) {
            Err(error) => Err(error),
            Ok(execution_mode) => match field_of(entry, "parameters"@) {
                Err(error) => Err(error),
                Ok(parameters) => Ok(
                    SpecModel {
                        name,
                        description,
                        execution_mode,
                        parameters: serde_to_string(parameters),
                        responses: match responses_of(host, name) {
                            Some(responses) => responses,
                            None => Seq::empty(),
                        },
                    },
                ),
            },
        },
    }
}

/// The tools of a setup. No name may occur twice.
pub open spec fn read_setup_tools(entries: Seq<Json>, host: Seq<HostToolModel>) -> Read<
    Seq<SpecModel>,
>
    decreases entries.len(),
{
    if entries.len() == 0 {
        Ok(Seq::empty())
    } else {
        match read_setup_tools(entries.drop_last(), host) {
            Err(error) => Err(error),
            Ok(before) => match object_of(entries.last(), "setup.tools entry"@) {
                Err(error) => Err(error),
                Ok(entry) => match text_field(entry, "name"@) {
                    Err(error) => Err(error),
                    Ok(name) => if has_tool(before, name) {
                        Err("setup.tools repeats "@ + debug_quoted(name))
                    } else {
                        match read_tool_named(entry, name, host) {
                            Err(error) => Err(error),
                            Ok(tool) => Ok(before.push(tool)),
                        }
                    },
                },
            },
        }
    }
}

proof fn lemma_setup_prefix(entries: Seq<Json>, host: Seq<HostToolModel>, k: int)
    requires
        0 <= k <= entries.len(),
        read_setup_tools(entries.take(k), host) is Err,
    ensures
        read_setup_tools(entries, host) == read_setup_tools(entries.take(k), host),
    decreases entries.len() - k,
{
    if k == entries.len() {
        assert(entries.take(k) =~= entries);
    } else {
        assert(entries.take(k + 1).drop_last() =~= entries.take(k));
        lemma_setup_prefix(entries, host, k + 1);
    }
}

/// The tools of a fixture: those of the setup, with the responses that the host scripts.
pub open spec fn read_tools(setup: Map<Seq<char>, Json>, host: Map<Seq<char>, Json>) -> Read<
    Seq<SpecModel>,
> {
    match array_field(host, "tools"@, "host.tools"@) {
        Err(error) => Err(error),
        Ok(scripts) => match read_host_tools(scripts) {
            Err(error) => Err(error),
            Ok(scripted) => match array_field(setup, "tools"@, "setup.tools"@) {
                Err(error) => Err(error),
                Ok(entries) => read_setup_tools(entries, scripted),
            },
        },
    }
}

fn parse_tool_execution_mode(value: Option<&JsonValue>) -> (r: Result<ToolExecutionMode, String>)
    ensures
        ({
            let read = read_execution_mode(crate::provider::local::seen(value));
            match r {
                Ok(mode) => read == Ok::<ToolExecutionMode, Seq<char>>(mode),
                Err(error) => read == Err::<ToolExecutionMode, Seq<char>>(error@),
            }
        }),
{
    match value {
        None => Ok(ToolExecutionMode::Parallel),
        Some(value) => match value.as_str() {
            Some(mode) => if same(mode, "parallel") {
                Ok(ToolExecutionMode::Parallel)
            } else if same(mode, "sequential") {
                Ok(ToolExecutionMode::Sequential)
            } else {
                Err(
                    "setup tool field \"execution_mode\" must be parallel or sequential".to_owned(),
                )
            },
            None => Err(
                "setup tool field \"execution_mode\" must be parallel or sequential".to_owned(),
            ),
        },
    }
}

fn tool_is_named(tools: &Vec<FixtureToolSpec>, name: &str) -> (r: bool)
    ensures
        r == has_tool(crate::model::views(tools@), name@),
{
    let ghost all = crate::model::views(tools@);
    let mut i: usize = 0;
    while i < tools.len()
        invariant
            i <= tools@.len(),
            all == crate::model::views(tools@),
            forall|k: int| 0 <= k < i ==> (#[trigger] all[k]).name != name@,
        decreases tools.len() - i,
    {
        assert(all[i as int] == tools@[i as int]@);
        if same(tools[i].name.as_str(), name) {
            return true;
        }
        i = i + 1;
    }
    false
}

fn parse_tool(entry: &JsonValue, before: &Vec<FixtureToolSpec>, host: &Vec<HostTool>) -> (r: Result<
    FixtureToolSpec,
    String,
>)
    ensures
        forall|entries: Seq<Json>|
            #![trigger read_setup_tools(entries, crate::model::views(host@))]
            entries.len() > 0 && entries.last() == entry@ && read_setup_tools(
                entries.drop_last(),
                crate::model::views(host@),
            ) == Ok::<Seq<SpecModel>, Seq<char>>(crate::model::views(before@)) ==> (match r {
                Ok(tool) => read_setup_tools(entries, crate::model::views(host@)) == Ok::<
                    Seq<SpecModel>,
                    Seq<char>,
                >(crate::model::views(before@).push(tool@)),
                Err(error) => read_setup_tools(entries, crate::model::views(host@)) == Err::<
                    Seq<SpecModel>,
                    Seq<char>,
                >(error@),
            }),
{
    let entry = match object(entry, "setup.tools entry") {
        Err(error) => return Err(error),
        Ok(entry) => entry,
    };
    let name = match string_field(entry, "name") {
        Err(error) => return Err(error),
        Ok(name) => name.to_owned(),
    };
    if tool_is_named(before, name.as_str()) {
        return Err(joined("setup.tools repeats ", quoted(name.as_str()).as_str()));
    }
    let description = match string_field(entry, "description") {
        Err(error) => return Err(error),
        Ok(description) => description.to_owned(),
    };
    let execution_mode = match parse_tool_execution_mode(entry.get("execution_mode")) {
        Err(error) => return Err(error),
        Ok(mode) => mode,
    };
    let parameters = match field(entry, "parameters") {
        Err(error) => return Err(error),
        Ok(parameters) => SerializedJson::new(parameters.to_json_string()),
    };
    let responses = match find_responses(host, name.as_str()) {
        Some(responses) => duplicate_all(responses),
        None => Vec::new(),
    };
    Ok(FixtureToolSpec { name, description, execution_mode, parameters, responses })
}

fn parse_tools(setup: &JsonObject, host: &JsonObject) -> (r: Result<Vec<FixtureToolSpec>, String>)
    ensures
        match r {
            Ok(tools) => read_tools(setup@, host@) == Ok::<_, Seq<char>>(
                crate::model::views(tools@),
            ),
            Err(error) => read_tools(setup@, host@) == Err::<Seq<SpecModel>, Seq<char>>(error@),
        },
{
    let scripts = match inner_array(host, "tools", "host.tools") {
        Err(error) => return Err(error),
        Ok(scripts) => scripts,
    };
    let scripted = match parse_host_tools(scripts) {
        Err(error) => return Err(error),
        Ok(scripted) => scripted,
    };
    let entries = match inner_array(setup, "tools", "setup.tools") {
        Err(error) => return Err(error),
        Ok(entries) => entries,
    };
    let ghost all = crate::model::views(entries@);
    let ghost known = crate::model::views(scripted@);
    let mut tools: Vec<FixtureToolSpec> = Vec::new();
    assert(crate::model::views(tools@) =~= Seq::<SpecModel>::empty());
    let mut i: usize = 0;
    while i < entries.len()
        invariant
            i <= entries@.len(),
            all == crate::model::views(entries@),
            known == crate::model::views(scripted@),
            read_tools(setup@, host@) == read_setup_tools(all, known),
            read_setup_tools(all.take(i as int), known) == Ok::<Seq<SpecModel>, Seq<char>>(
                crate::model::views(tools@),
            ),
        decreases entries.len() - i,
    {
        proof {
            assert(all.take(i + 1).drop_last() =~= all.take(i as int));
            assert(all.take(i + 1).last() == entries@[i as int]@);
        }
        match parse_tool(&entries[i], &tools, &scripted) {
            Err(error) => {
                proof {
                    assert(read_setup_tools(all.take(i + 1), known) is Err);
                    lemma_setup_prefix(all, known, i + 1);
                }
                return Err(error);
            },
            Ok(tool) => {
                assert(read_setup_tools(all.take(i + 1), known) is Ok);
                tools.push(tool);
            },
        }
        i = i + 1;
    }
    assert(all.take(i as int) =~= all);
    Ok(tools)
}

/// One action of the user.
#[derive(Clone, Debug, Eq, PartialEq)]
pub enum FixtureAction {
    /// Queue a steering message.
    Steer(String),
    /// Queue a follow-up message.
    FollowUp(String),
    /// Start a run with a prompt.
    Prompt(String),
    /// Start a continuation.
    Continue,
}

/// Model of a [`FixtureAction`].
#[verifier::ext_equal]
pub enum ActionModel {
    Steer(Seq<char>),
    FollowUp(Seq<char>),
    Prompt(Seq<char>),
    Continue,
}

impl View for FixtureAction {
    type V = ActionModel;

    open spec fn view(&self) -> ActionModel {
        match *self {
            FixtureAction::Steer(text) => ActionModel::Steer(text@),
            FixtureAction::FollowUp(text) => ActionModel::FollowUp(text@),
            FixtureAction::Prompt(text) => ActionModel::Prompt(text@),
            FixtureAction::Continue => ActionModel::Continue,
        }
    }
}

/// One action.
pub open spec fn read_action(value: Json) -> Read<ActionModel> {
    match object_of(value, "fixture action"@) {
        Err(error) => Err(error),
        Ok(action) => match text_field(action, "kind"@) {
            Err(error) => Err(error),
            Ok(kind) => if kind == "steer"@ {
                match text_field(action, "text"@) {
                    Err(error) => Err(error),
                    Ok(text) => Ok(ActionModel::Steer(text)),
                }
            } else if kind == "follow_up"@ {
                match text_field(action, "text"@) {
                    Err(error) => Err(error),
                    Ok(text) => Ok(ActionModel::FollowUp(text)),
                }
            } else if kind == "prompt"@ {
                match text_field(action, "text"@) {
                    Err(error) => Err(error),
                    Ok(text) => Ok(ActionModel::Prompt(text)),
                }
            } else if kind == "continue"@ {
                Ok(ActionModel::Continue)
            } else {
                Err("the V0 runner does not support action "@ + debug_quoted(kind))
            },
        },
    }
}

/// Whether an action starts a run.
pub open spec fn starts_run(action: ActionModel) -> bool {
    action is Prompt || action is Continue
}

/// Whether one of the actions starts a run.
pub open spec fn some_start(actions: Seq<ActionModel>) -> bool {
    exists|i: int| 0 <= i < actions.len() && starts_run(#[trigger] actions[i])
}

/// The actions of a fixture, one of which must start a run.
pub open spec fn read_actions(value: Json) -> Read<Seq<ActionModel>> {
    match array_of(value, "actions"@) {
        Err(error) => Err(error),
        Ok(items) => if items.len() == 0 {
            Err("the V0 runner requires at least one action"@)
        } else {
            match collected(items, |v: Json, i: nat| read_action(v)) {
                Err(error) => Err(error),
                Ok(actions) => if some_start(actions) {
                    Ok(actions)
                } else {
                    Err("the V0 runner requires an action that starts a run"@)
                },
            }
        },
    }
}

fn parse_action(value: &JsonValue) -> (r: Result<FixtureAction, String>)
    ensures
        match r {
            Ok(action) => read_action(value@) == Ok::<ActionModel, Seq<char>>(action@),
            Err(error) => read_action(value@) == Err::<ActionModel, Seq<char>>(error@),
        },
{
    let action = match object(value, "fixture action") {
        Err(error) => return Err(error),
        Ok(action) => action,
    };
    let kind = match string_field(action, "kind") {
        Err(error) => return Err(error),
        Ok(kind) => kind,
    };
    if same(kind, "steer") {
        match string_field(action, "text") {
            Err(error) => Err(error),
            Ok(text) => Ok(FixtureAction::Steer(text.to_owned())),
        }
    } else if same(kind, "follow_up") {
        match string_field(action, "text") {
            Err(error) => Err(error),
            Ok(text) => Ok(FixtureAction::FollowUp(text.to_owned())),
        }
    } else if same(kind, "prompt") {
        match string_field(action, "text") {
            Err(error) => Err(error),
            Ok(text) => Ok(FixtureAction::Prompt(text.to_owned())),
        }
    } else if same(kind, "continue") {
        Ok(FixtureAction::Continue)
    } else {
        Err(joined("the V0 runner does not support action ", quoted(kind).as_str()))
    }
}

fn parse_actions(value: &JsonValue) -> (r: Result<Vec<FixtureAction>, String>)
    ensures
        match r {
            Ok(actions) => read_actions(value@) == Ok::<_, Seq<char>>(
                crate::model::views(actions@),
            ),
            Err(error) => read_actions(value@) == Err::<Seq<ActionModel>, Seq<char>>(error@),
        },
{
    let items = match array(value, "actions") {
        Err(error) => return Err(error),
        Ok(items) => items,
    };
    if items.len() == 0 {
        return Err("the V0 runner requires at least one action".to_owned());
    }
    let ghost all = crate::model::views(items@);
    let ghost read = |v: Json, i: nat| read_action(v);
    let mut actions: Vec<FixtureAction> = Vec::new();
    assert(crate::model::views(actions@) =~= Seq::<ActionModel>::empty());
    let mut started = false;
    let mut i: usize = 0;
    while i < items.len()
        invariant
            i <= items@.len(),
            items@.len() > 0,
            array_of(value@, "actions"@) == Ok::<Seq<Json>, Seq<char>>(all),
            all == crate::model::views(items@),
            read == (|v: Json, i: nat| read_action(v)),
            actions@.len() == i,
            collected(all.take(i as int), read) == Ok::<Seq<ActionModel>, Seq<char>>(
                crate::model::views(actions@),
            ),
            started == some_start(crate::model::views(actions@)),
        decreases items.len() - i,
    {
        proof {
            assert(all.take(i + 1).drop_last() =~= all.take(i as int));
            assert(all.take(i + 1).last() == items@[i as int]@);
        }
        let ghost earlier = crate::model::views(actions@);
        match parse_action(&items[i]) {
            Err(error) => {
                proof {
                    lemma_collected_prefix(all, read, i + 1);
                }
                return Err(error);
            },
            Ok(action) => {
                let starts = matches!(action, FixtureAction::Prompt(_) | FixtureAction::Continue);
                assert(starts == starts_run(action@));
                actions.push(action);
                let ghost now = crate::model::views(actions@);
                proof {
                    assert(now =~= earlier.push(action@));
                    assert(forall|k: int| 0 <= k < i ==> #[trigger] now[k] == earlier[k]);
                    if started {
                        let k = choose|k: int|
                            0 <= k < earlier.len() && starts_run(#[trigger] earlier[k]);
                        assert(starts_run(now[k]));
                    }
                    assert(starts_run(now[i as int]) == starts);
                }
                started = started || starts;
            },
        }
        i = i + 1;
    }
    assert(all.take(i as int) =~= all);
    if started {
        Ok(actions)
    } else {
        Err("the V0 runner requires an action that starts a run".to_owned())
    }
}

/// How a queue is drained.
pub open spec fn read_queue_mode(value: Option<Json>) -> Read<QueueMode> {
    match value {
        None => Ok(QueueMode::OneAtATime),
        Some(Json::String(mode)) => if mode == "all"@ {
            Ok(QueueMode::All)
        } else if mode == "one-at-a-time"@ {
            Ok(QueueMode::OneAtATime)
        } else {
            Err("setup queue mode must be all or one-at-a-time"@)
        },
        Some(_) => Err("setup queue mode must be all or one-at-a-time"@),
    }
}

fn parse_queue_mode(value: Option<&JsonValue>) -> (r: Result<QueueMode, String>)
    ensures
        ({
            let read = read_queue_mode(crate::provider::local::seen(value));
            match r {
                Ok(mode) => read == Ok::<QueueMode, Seq<char>>(mode),
                Err(error) => read == Err::<QueueMode, Seq<char>>(error@),
            }
        }),
{
    match value {
        None => Ok(QueueMode::OneAtATime),
        Some(value) => match value.as_str() {
            Some(mode) => if same(mode, "all") {
                Ok(QueueMode::All)
            } else if same(mode, "one-at-a-time") {
                Ok(QueueMode::OneAtATime)
            } else {
                Err("setup queue mode must be all or one-at-a-time".to_owned())
            },
            None => Err("setup queue mode must be all or one-at-a-time".to_owned()),
        },
    }
}

/// A named reasoning level.
pub open spec fn read_thinking_level(value: Seq<char>) -> Read<ThinkingLevel> {
    if value == "off"@ {
        Ok(ThinkingLevel::Off)
    } else if value == "low"@ {
        Ok(ThinkingLevel::Low)
    } else if value == "medium"@ {
        Ok(ThinkingLevel::Medium)
    } else if value == "high"@ {
        Ok(ThinkingLevel::High)
    } else {
        Err("unsupported thinking level "@ + debug_quoted(value))
    }
}

fn parse_thinking_level(value: &str) -> (r: Result<ThinkingLevel, String>)
    ensures
        match r {
            Ok(level) => read_thinking_level(value@) == Ok::<ThinkingLevel, Seq<char>>(level),
            Err(error) => read_thinking_level(value@) == Err::<ThinkingLevel, Seq<char>>(error@),
        },
{
    if same(value, "off") {
        Ok(ThinkingLevel::Off)
    } else if same(value, "low") {
        Ok(ThinkingLevel::Low)
    } else if same(value, "medium") {
        Ok(ThinkingLevel::Medium)
    } else if same(value, "high") {
        Ok(ThinkingLevel::High)
    } else {
        Err(joined("unsupported thinking level ", quoted(value).as_str()))
    }
}

/// A named stop reason.
pub open spec fn read_stop_reason(value: Seq<char>) -> Read<StopReason> {
    if value == "stop"@ {
        Ok(StopReason::EndTurn)
    } else if value == "tool_call"@ {
        Ok(StopReason::ToolUse)
    } else {
        Err("unsupported model stop reason "@ + debug_quoted(value))
    }
}

fn parse_stop_reason(value: &str) -> (r: Result<StopReason, String>)
    ensures
        match r {
            Ok(reason) => read_stop_reason(value@) == Ok::<StopReason, Seq<char>>(reason),
            Err(error) => read_stop_reason(value@) == Err::<StopReason, Seq<char>>(error@),
        },
{
    if same(value, "stop") {
        Ok(StopReason::EndTurn)
    } else if same(value, "tool_call") {
        Ok(StopReason::ToolUse)
    } else {
        Err(joined("unsupported model stop reason ", quoted(value).as_str()))
    }
}


/// What one chunk of a scripted turn adds: a stream event, and the end of the turn.
#[verifier::ext_equal]
pub struct ChunkModel {
    pub event: StreamEventModel,
    pub usage: Option<FixtureUsage>,
}

/// A tool call of a scripted turn.
pub open spec fn read_call(chunk: Map<Seq<char>, Json>) -> Read<ChunkModel> {
    match text_field(chunk, "id"@) {
        Err(error) => Err(error),
        Ok(id) => if id.len() == 0 {
            Err("tool-call ID cannot be empty"@)
        } else {
            match text_field(chunk, "name"@) {
                Err(error) => Err(error),
                Ok(name) => match field_of(chunk, "arguments"@) {
                    Err(error) => Err(error),
                    Ok(arguments) => Ok(
                        ChunkModel {
                            event: StreamEventModel::ToolCall(
                                CallModel { id, name, arguments: serde_to_string(arguments) },
                            ),
                            usage: None,
                        },
                    ),
                },
            }
        },
    }
}

/// The end of a scripted turn.
pub open spec fn read_done(chunk: Map<Seq<char>, Json>) -> Read<ChunkModel> {
    match text_field(chunk, "stop_reason"@) {
        Err(error) => Err(error),
        Ok(name) => match read_stop_reason(name) {
            Err(error) => Err(error),
            Ok(reason) => match field_of(chunk, "usage"@) {
                Err(error) => Err(error),
                Ok(value) => match read_usage(value) {
                    Err(error) => Err(error),
                    Ok(usage) => Ok(
                        ChunkModel { event: StreamEventModel::End(reason), usage: Some(usage) },
                    ),
                },
            },
        },
    }
}

/// One chunk of a scripted turn. Only the last chunk may end the turn, and it must.
pub open spec fn read_chunk(value: Json, index: nat, count: nat, turn: nat) -> Read<ChunkModel> {
    match object_of(value, "model_script chunk"@) {
        Err(error) => Err(error),
        Ok(chunk) => match text_field(chunk, "kind"@) {
            Err(error) => Err(error),
            Ok(kind) => if kind == "text_delta"@ && index + 1 < count {
                match text_field(chunk, "text"@) {
                    Err(error) => Err(error),
                    Ok(text) => Ok(
                        ChunkModel { event: StreamEventModel::TextDelta(text), usage: None },
                    ),
                }
            } else if kind == "tool_call"@ && index + 1 < count {
                read_call(chunk)
            } else if kind == "done"@ && index + 1 == count {
                read_done(chunk)
            } else {
                Err(
                    "unsupported model-script chunk "@ + debug_quoted(kind) + " at turn "@ + digits(
                        turn,
                    ) + ", index "@ + digits(index),
                )
            },
        },
    }
}

/// One scripted turn.
#[verifier::ext_equal]
pub struct TurnScript {
    pub events: Seq<StreamEventModel>,
    pub usage: FixtureUsage,
    pub reason: StopReason,
}

/// The turn that chunks make.
pub open spec fn turn_of(chunks: Seq<ChunkModel>) -> TurnScript {
    TurnScript {
        events: chunks.map_values(|c: ChunkModel| c.event),
        usage: chunks.last().usage->Some_0,
        reason: chunks.last().event->End_0,
    }
}

/// One scripted turn.
pub open spec fn read_turn(value: Json, turn: nat) -> Read<TurnScript> {
    match object_of(value, "model_script turn"@) {
        Err(error) => Err(error),
        Ok(object) => match array_field(object, "chunks"@, "model_script chunks"@) {
            Err(error) => Err(error),
            Ok(chunks) => if chunks.len() == 0 {
                Err("model_script["@ + digits(turn) + "] has no chunks"@)
            } else {
                match collected(
                    chunks,
                    |v: Json, i: nat| read_chunk(v, i, chunks.len(), turn),
                ) {
                    Err(error) => Err(error),
                    Ok(parts) => Ok(turn_of(parts)),
                }
            },
        },
    }
}

/// The turns of the model.
pub open spec fn read_script(value: Json) -> Read<Seq<TurnScript>> {
    match array_of(value, "model_script"@) {
        Err(error) => Err(error),
        Ok(turns) => if turns.len() == 0 {
            Err("model_script must contain at least one turn"@)
        } else {
            collected(turns, |v: Json, i: nat| read_turn(v, i))
        },
    }
}

struct Chunk {
    event: ModelStreamEvent,
    usage: Option<FixtureUsage>,
}

impl View for Chunk {
    type V = ChunkModel;

    closed spec fn view(&self) -> ChunkModel {
        ChunkModel { event: self.event@, usage: self.usage }
    }
}

fn parse_call(chunk: &JsonObject) -> (r: Result<Chunk, String>)
    ensures
        match r {
            Ok(part) => read_call(chunk@) == Ok::<ChunkModel, Seq<char>>(part@),
            Err(error) => read_call(chunk@) == Err::<ChunkModel, Seq<char>>(error@),
        },
{
    let id = match string_field(chunk, "id") {
        Err(error) => return Err(error),
        Ok(id) => match ToolCallId::new(id.to_owned()) {
            Err(error) => return Err(error.message()),
            Ok(id) => id,
        },
    };
    let name = match string_field(chunk, "name") {
        Err(error) => return Err(error),
        Ok(name) => name.to_owned(),
    };
    match field(chunk, "arguments") {
        Err(error) => Err(error),
        Ok(arguments) => Ok(
            Chunk {
                event: ModelStreamEvent::ToolCall(
                    AssistantToolCall {
                        id,
                        name,
                        arguments: SerializedJson::new(arguments.to_json_string()),
                    },
                ),
                usage: None,
            },
        ),
    }
}

fn parse_done(chunk: &JsonObject) -> (r: Result<(StopReason, FixtureUsage), String>)
    ensures
        match r {
            Ok((reason, usage)) => read_done(chunk@) == Ok::<ChunkModel, Seq<char>>(
                (ChunkModel { event: StreamEventModel::End(reason), usage: Some(usage) }),
            ),
            Err(error) => read_done(chunk@) == Err::<ChunkModel, Seq<char>>(error@),
        },
{
    let reason = match string_field(chunk, "stop_reason") {
        Err(error) => return Err(error),
        Ok(name) => match parse_stop_reason(name) {
            Err(error) => return Err(error),
            Ok(reason) => reason,
        },
    };
    let usage = match field(chunk, "usage") {
        Err(error) => return Err(error),
        Ok(value) => match FixtureUsage::parse(value) {
            Err(error) => return Err(error),
            Ok(usage) => usage,
        },
    };
    Ok((reason, usage))
}

fn parse_chunk(value: &JsonValue, index: usize, count: usize, turn: usize) -> (r: Result<
    Chunk,
    String,
>)
    requires
        index < count,
    ensures
        ({
            let read = read_chunk(value@, index as nat, count as nat, turn as nat);
            match r {
                Ok(part) => read == Ok::<ChunkModel, Seq<char>>(part@),
                Err(error) => read == Err::<ChunkModel, Seq<char>>(error@),
            }
        }),
{
    let chunk = match object(value, "model_script chunk") {
        Err(error) => return Err(error),
        Ok(chunk) => chunk,
    };
    let kind = match string_field(chunk, "kind") {
        Err(error) => return Err(error),
        Ok(kind) => kind,
    };
    let last = index + 1 == count;
    if same(kind, "text_delta") && !last {
        match string_field(chunk, "text") {
            Err(error) => Err(error),
            Ok(text) => Ok(
                Chunk { event: ModelStreamEvent::TextDelta(text.to_owned()), usage: None },
            ),
        }
    } else if same(kind, "tool_call") && !last {
        parse_call(chunk)
    } else if same(kind, "done") && last {
        match parse_done(chunk) {
            Err(error) => Err(error),
            Ok((reason, usage)) => Ok(
                Chunk { event: ModelStreamEvent::End(reason), usage: Some(usage) },
            ),
        }
    } else {
        let mut error = joined("unsupported model-script chunk ", quoted(kind).as_str());
        error.push_str(" at turn ");
        push_number(&mut error, turn as u64);
        error.push_str(", index ");
        push_number(&mut error, index as u64);
        Err(error)
    }
}

/// One turn of a script, ready to be streamed.
#[derive(Debug)]
pub struct FixtureTurn {
    /// Events of the provider.
    pub stream: ModelStream,
    /// Reported usage.
    pub usage: FixtureUsage,
    /// Why generation stopped.
    pub stop_reason: StopReason,
}

impl View for FixtureTurn {
    type V = TurnScript;

    open spec fn view(&self) -> TurnScript {
        TurnScript { events: self.stream@, usage: self.usage, reason: self.stop_reason }
    }
}

/// Only the last chunk of a turn that was read carries usage, and it is the end of the turn.
proof fn lemma_last_chunk(chunks: Seq<Json>, turn: nat, parts: Seq<ChunkModel>, k: int)
    requires
        0 < k <= chunks.len(),
        collected(
            chunks.take(k),
            |v: Json, i: nat| read_chunk(v, i, chunks.len(), turn),
        ) == Ok::<Seq<ChunkModel>, Seq<char>>(parts),
    ensures
        parts.len() == k,
        parts.last().usage is Some <==> k == chunks.len(),
        k == chunks.len() ==> parts.last().event is End,
    decreases k,
{
    let read = |v: Json, i: nat| read_chunk(v, i, chunks.len(), turn);
    assert(chunks.take(k).drop_last() =~= chunks.take(k - 1));
    let before = collected(chunks.take(k - 1), read)->Ok_0;
    if k == 1 {
        assert(chunks.take(0) =~= Seq::<Json>::empty());
    } else {
        lemma_last_chunk(chunks, turn, before, k - 1);
    }
    assert(read(chunks.take(k).last(), (k - 1) as nat) == read_chunk(
        chunks.take(k).last(),
        (k - 1) as nat,
        chunks.len(),
        turn,
    ));
}

fn parse_turn(value: &JsonValue, turn: usize) -> (r: Result<FixtureTurn, String>)
    ensures
        match r {
            Ok(script) => read_turn(value@, turn as nat) == Ok::<TurnScript, Seq<char>>(script@),
            Err(error) => read_turn(value@, turn as nat) == Err::<TurnScript, Seq<char>>(error@),
        },
{
    let object = match object(value, "model_script turn") {
        Err(error) => return Err(error),
        Ok(object) => object,
    };
    let chunks = match inner_array(object, "chunks", "model_script chunks") {
        Err(error) => return Err(error),
        Ok(chunks) => chunks,
    };
    if chunks.len() == 0 {
        let mut error = "model_script[".to_owned();
        push_number(&mut error, turn as u64);
        error.push_str("] has no chunks");
        return Err(error);
    }
    let ghost all = crate::model::views(chunks@);
    let ghost read = |v: Json, i: nat| read_chunk(v, i, all.len(), turn as nat);
    let ghost mut parts: Seq<ChunkModel> = Seq::empty();
    let mut events: Vec<ModelStreamEvent> = Vec::new();
    let mut usage: Option<FixtureUsage> = None;
    let mut stop_reason: StopReason = StopReason::EndTurn;
    assert(crate::model::views(events@) =~= Seq::<StreamEventModel>::empty());
    assert(parts.map_values(|c: ChunkModel| c.event) =~= Seq::<StreamEventModel>::empty());
    let mut i: usize = 0;
    while i < chunks.len()
        invariant
            i <= chunks@.len(),
            chunks@.len() > 0,
            all == crate::model::views(chunks@),
            object_of(value@, "model_script turn"@) == Ok::<_, Seq<char>>(object@),
            array_field(object@, "chunks"@, "model_script chunks"@) == Ok::<_, Seq<char>>(all),
            read == (|v: Json, i: nat| read_chunk(v, i, all.len(), turn as nat)),
            collected(all.take(i as int), read) == Ok::<Seq<ChunkModel>, Seq<char>>(parts),
            crate::model::views(events@) == parts.map_values(|c: ChunkModel| c.event),
            i > 0 ==> parts.len() > 0 && usage == parts.last().usage && (parts.last().event is End
                ==> stop_reason == parts.last().event->End_0),
        decreases chunks.len() - i,
    {
        proof {
            assert(all.take(i + 1).drop_last() =~= all.take(i as int));
            assert(all.take(i + 1).last() == chunks@[i as int]@);
        }
        match parse_chunk(&chunks[i], i, chunks.len(), turn) {
            Err(error) => {
                proof {
                    lemma_collected_prefix(all, read, i + 1);
                }
                return Err(error);
            },
            Ok(chunk) => {
                let ghost part = chunk@;
                if let ModelStreamEvent::End(reason) = &chunk.event {
                    stop_reason = *reason;
                }
                usage = chunk.usage;
                events.push(chunk.event);
                proof {
                    assert(parts.push(part).map_values(|c: ChunkModel| c.event)
                        =~= parts.map_values(|c: ChunkModel| c.event).push(part.event));
                    parts = parts.push(part);
                }
            },
        }
        i = i + 1;
    }
    proof {
        assert(all.take(i as int) =~= all);
        lemma_last_chunk(all, turn as nat, parts, all.len() as int);
    }
    match usage {
        Some(usage) => Ok(FixtureTurn { stream: ModelStream { events }, usage, stop_reason }),
        None => Err("model script must end with done".to_owned()),
    }
}

fn parse_model_script(value: &JsonValue) -> (r: Result<Vec<FixtureTurn>, String>)
    ensures
        match r {
            Ok(turns) => read_script(value@) == Ok::<_, Seq<char>>(crate::model::views(turns@))
                && turns@.len() > 0,
            Err(error) => read_script(value@) == Err::<Seq<TurnScript>, Seq<char>>(error@),
        },
{
    let items = match array(value, "model_script") {
        Err(error) => return Err(error),
        Ok(items) => items,
    };
    if items.len() == 0 {
        return Err("model_script must contain at least one turn".to_owned());
    }
    let ghost all = crate::model::views(items@);
    let ghost read = |v: Json, i: nat| read_turn(v, i);
    let mut turns: Vec<FixtureTurn> = Vec::new();
    assert(crate::model::views(turns@) =~= Seq::<TurnScript>::empty());
    let mut i: usize = 0;
    while i < items.len()
        invariant
            i <= items@.len(),
            items@.len() > 0,
            turns@.len() == i,
            array_of(value@, "model_script"@) == Ok::<Seq<Json>, Seq<char>>(all),
            all == crate::model::views(items@),
            read == (|v: Json, i: nat| read_turn(v, i)),
            collected(all.take(i as int), read) == Ok::<Seq<TurnScript>, Seq<char>>(
                crate::model::views(turns@),
            ),
        decreases items.len() - i,
    {
        proof {
            assert(all.take(i + 1).drop_last() =~= all.take(i as int));
            assert(all.take(i + 1).last() == items@[i as int]@);
        }
        match parse_turn(&items[i], i) {
            Err(error) => {
                proof {
                    lemma_collected_prefix(all, read, i + 1);
                }
                return Err(error);
            },
            Ok(turn) => turns.push(turn),
        }
        i = i + 1;
    }
    assert(all.take(i as int) =~= all);
    Ok(turns)
}


/// A rule that blocks one tool.
#[derive(Clone, Debug, Eq, PartialEq)]
pub struct FixtureBeforeToolBlock {
    /// Blocked tool.
    pub tool_name: String,
    /// Reason that the model is told.
    pub reason: String,
}

/// Model of a [`FixtureBeforeToolBlock`].
#[verifier::ext_equal]
pub struct BlockModel {
    pub tool_name: Seq<char>,
    pub reason: Seq<char>,
}

impl View for FixtureBeforeToolBlock {
    type V = BlockModel;

    open spec fn view(&self) -> BlockModel {
        BlockModel { tool_name: self.tool_name@, reason: self.reason@ }
    }
}

/// A rule that replaces the results of one tool.
#[derive(Clone, Debug, Eq, PartialEq)]
pub struct FixtureAfterToolReplace {
    /// Tool whose results are replaced.
    pub tool_name: String,
    /// Replacement content.
    pub content: String,
    /// Replacement of the error flag.
    pub is_error: bool,
}

/// Model of a [`FixtureAfterToolReplace`].
#[verifier::ext_equal]
pub struct ReplaceModel {
    pub tool_name: Seq<char>,
    pub content: Seq<char>,
    pub is_error: bool,
}

impl View for FixtureAfterToolReplace {
    type V = ReplaceModel;

    open spec fn view(&self) -> ReplaceModel {
        ReplaceModel {
            tool_name: self.tool_name@,
            content: self.content@,
            is_error: self.is_error,
        }
    }
}

/// The blocking rule of a host.
pub open spec fn read_block(host: Map<Seq<char>, Json>) -> Read<Option<BlockModel>> {
    match member(host, "before_tool_call"@) {
        None => Ok(None),
        Some(value) => match object_of(value, "host.before_tool_call"@) {
            Err(error) => Err(error),
            Ok(rule) => match text_field(rule, "tool_name"@) {
                Err(error) => Err(error),
                Ok(tool_name) => match text_field(rule, "reason"@) {
                    Err(error) => Err(error),
                    Ok(reason) => Ok(Some(BlockModel { tool_name, reason })),
                },
            },
        },
    }
}

/// The replacing rule of a host.
pub open spec fn read_replace(host: Map<Seq<char>, Json>) -> Read<Option<ReplaceModel>> {
    match member(host, "after_tool_call"@) {
        None => Ok(None),
        Some(value) => match object_of(value, "host.after_tool_call"@) {
            Err(error) => Err(error),
            Ok(rule) => match text_field(rule, "tool_name"@) {
                Err(error) => Err(error),
                Ok(tool_name) => match text_field(rule, "content"@) {
                    Err(error) => Err(error),
                    Ok(content) => match flag_field(rule, "is_error"@) {
                        Err(error) => Err(error),
                        Ok(is_error) => Ok(
                            Some(ReplaceModel { tool_name, content, is_error }),
                        ),
                    },
                },
            },
        },
    }
}

fn parse_before_tool_block(host: &JsonObject) -> (r: Result<
    Option<FixtureBeforeToolBlock>,
    String,
>)
    ensures
        match r {
            Ok(rule) => read_block(host@) == Ok::<_, Seq<char>>(crate::model::opt_view(rule)),
            Err(error) => read_block(host@) == Err::<Option<BlockModel>, Seq<char>>(error@),
        },
{
    let rule = match host.get("before_tool_call") {
        None => return Ok(None),
        Some(rule) => match object(rule, "host.before_tool_call") {
            Err(error) => return Err(error),
            Ok(rule) => rule,
        },
    };
    let tool_name = match string_field(rule, "tool_name") {
        Err(error) => return Err(error),
        Ok(name) => name.to_owned(),
    };
    match string_field(rule, "reason") {
        Err(error) => Err(error),
        Ok(reason) => Ok(Some(FixtureBeforeToolBlock { tool_name, reason: reason.to_owned() })),
    }
}

fn parse_after_tool_replace(host: &JsonObject) -> (r: Result<
    Option<FixtureAfterToolReplace>,
    String,
>)
    ensures
        match r {
            Ok(rule) => read_replace(host@) == Ok::<_, Seq<char>>(crate::model::opt_view(rule)),
            Err(error) => read_replace(host@) == Err::<Option<ReplaceModel>, Seq<char>>(error@),
        },
{
    let rule = match host.get("after_tool_call") {
        None => return Ok(None),
        Some(rule) => match object(rule, "host.after_tool_call") {
            Err(error) => return Err(error),
            Ok(rule) => rule,
        },
    };
    let tool_name = match string_field(rule, "tool_name") {
        Err(error) => return Err(error),
        Ok(name) => name.to_owned(),
    };
    let content = match string_field(rule, "content") {
        Err(error) => return Err(error),
        Ok(content) => content.to_owned(),
    };
    match bool_field(rule, "is_error") {
        Err(error) => Err(error),
        Ok(is_error) => Ok(Some(FixtureAfterToolReplace { tool_name, content, is_error })),
    }
}

/// A declarative parity fixture.
#[derive(Debug)]
pub struct Fixture {
    /// Identity of the fixture.
    pub id: String,
    /// System instructions.
    pub system_prompt: String,
    /// Provider identity.
    pub provider: String,
    /// Model identity.
    pub model: String,
    /// Reasoning level.
    pub thinking_level: ThinkingLevel,
    /// How steering is drained.
    pub steering_mode: QueueMode,
    /// How follow-ups are drained.
    pub follow_up_mode: QueueMode,
    /// Actions of the user, in order.
    pub actions: Vec<FixtureAction>,
    /// Blocking rule.
    pub before_tool_block: Option<FixtureBeforeToolBlock>,
    /// Replacing rule.
    pub after_tool_replace: Option<FixtureAfterToolReplace>,
    /// Tools, in order.
    pub tools: Vec<FixtureToolSpec>,
    /// Turns of the model, in order. There is at least one.
    pub turns: Vec<FixtureTurn>,
}

/// Model of a [`Fixture`].
#[verifier::ext_equal]
pub struct FixtureModel {
    pub id: Seq<char>,
    pub system_prompt: Seq<char>,
    pub provider: Seq<char>,
    pub model: Seq<char>,
    pub thinking_level: ThinkingLevel,
    pub steering_mode: QueueMode,
    pub follow_up_mode: QueueMode,
    pub actions: Seq<ActionModel>,
    pub before_tool_block: Option<BlockModel>,
    pub after_tool_replace: Option<ReplaceModel>,
    pub tools: Seq<SpecModel>,
    pub turns: Seq<TurnScript>,
}

impl View for Fixture {
    type V = FixtureModel;

    open spec fn view(&self) -> FixtureModel {
        FixtureModel {
            id: self.id@,
            system_prompt: self.system_prompt@,
            provider: self.provider@,
            model: self.model@,
            thinking_level: self.thinking_level,
            steering_mode: self.steering_mode,
            follow_up_mode: self.follow_up_mode,
            actions: crate::model::views(self.actions@),
            before_tool_block: crate::model::opt_view(self.before_tool_block),
            after_tool_replace: crate::model::opt_view(self.after_tool_replace),
            tools: crate::model::views(self.tools@),
            turns: crate::model::views(self.turns@),
        }
    }
}

/// Whether a document says that it is a fixture of the supported format.
pub open spec fn read_header(root: Map<Seq<char>, Json>) -> Read<()> {
    match count_field(root, "format_version"@) {
        Err(error) => Err(error),
        Ok(version) => if version != 1 {
            Err("expected format_version 1 declarative_parity_fixture"@)
        } else {
            match text_field(root, "kind"@) {
                Err(error) => Err(error),
                Ok(kind) => if kind != "declarative_parity_fixture"@ {
                    Err("expected format_version 1 declarative_parity_fixture"@)
                } else {
                    Ok(())
                },
            }
        },
    }
}

/// What the scripted parts of a fixture hold: tools, actions and turns.
pub open spec fn read_parts(
    root: Map<Seq<char>, Json>,
    setup: Map<Seq<char>, Json>,
    host: Map<Seq<char>, Json>,
) -> Read<(Seq<SpecModel>, Seq<ActionModel>, Seq<TurnScript>)> {
    match read_tools(setup, host) {
        Err(error) => Err(error),
        Ok(tools) => match field_of(root, "actions"@) {
            Err(error) => Err(error),
            Ok(value) => match read_actions(value) {
                Err(error) => Err(error),
                Ok(actions) => match field_of(root, "model_script"@) {
                    Err(error) => Err(error),
                    Ok(value) => match read_script(value) {
                        Err(error) => Err(error),
                        Ok(turns) => Ok((tools, actions, turns)),
                    },
                },
            },
        },
    }
}

/// What the named settings of a fixture hold. Lists are left empty.
pub open spec fn read_settings(
    root: Map<Seq<char>, Json>,
    setup: Map<Seq<char>, Json>,
    model: Map<Seq<char>, Json>,
    host: Map<Seq<char>, Json>,
) -> Read<FixtureModel> {
    match text_field(root, "id"@) {
        Err(error) => Err(error),
        Ok(id) => match text_field(setup, "system_prompt"@) {
            Err(error) => Err(error),
            Ok(system_prompt) => match text_field(model, "provider"@) {
                Err(error) => Err(error),
                Ok(provider) => match text_field(model, "id"@) {
                    Err(error) => Err(error),
                    Ok(model) => match text_field(setup, "thinking_level"@) {
                        Err(error) => Err(error),
                        Ok(level) => match read_thinking_level(level) {
                            Err(error) => Err(error),
                            Ok(thinking_level) => read_policies(
                                setup,
                                host,
                                FixtureModel {
                                    id,
                                    system_prompt,
                                    provider,
                                    model,
                                    thinking_level,
                                    steering_mode: QueueMode::OneAtATime,
                                    follow_up_mode: QueueMode::OneAtATime,
                                    actions: Seq::empty(),
                                    before_tool_block: None,
                                    after_tool_replace: None,
                                    tools: Seq::empty(),
                                    turns: Seq::empty(),
                                },
                            ),
                        },
                    },
                },
            },
        },
    }
}

/// Settings completed by the queue modes and the rules of the host.
pub open spec fn read_policies(
    setup: Map<Seq<char>, Json>,
    host: Map<Seq<char>, Json>,
    settings: FixtureModel,
) -> Read<FixtureModel> {
    match read_queue_mode(member(setup, "steering_mode"@)) {
        Err(error) => Err(error),
        Ok(steering_mode) => match read_queue_mode(member(setup, "follow_up_mode"@)) {
            Err(error) => Err(error),
            Ok(follow_up_mode) => match read_block(host) {
                Err(error) => Err(error),
                Ok(before_tool_block) => match read_replace(host) {
                    Err(error) => Err(error),
                    Ok(after_tool_replace) => Ok(
                        FixtureModel {
                            steering_mode,
                            follow_up_mode,
                            before_tool_block,
                            after_tool_replace,
                            ..settings
                        },
                    ),
                },
            },
        },
    }
}

/// A fixture, from the members of its document.
pub open spec fn read_root(root: Map<Seq<char>, Json>) -> Read<FixtureModel> {
    match read_header(root) {
        Err(error) => Err(error),
        Ok(_) => match object_field(root, "setup"@, "setup"@) {
            Err(error) => Err(error),
            Ok(setup) => match object_field(setup, "model"@, "setup.model"@) {
                Err(error) => Err(error),
                Ok(model) => match object_field(root, "host"@, "host"@) {
                    Err(error) => Err(error),
                    Ok(host) => match read_parts(root, setup, host) {
                        Err(error) => Err(error),
                        Ok((tools, actions, turns)) => match read_settings(
                            root,
                            setup,
                            model,
                            host,
                        ) {
                            Err(error) => Err(error),
                            Ok(settings) => Ok(
                                FixtureModel { tools, actions, turns, ..settings },
                            ),
                        },
                    },
                },
            },
        },
    }
}

/// A fixture, from its text.
pub open spec fn read_fixture(input: Seq<char>) -> Read<FixtureModel> {
    match serde_from_str(input) {
        Err(error) => Err(error),
        Ok(value) => match object_of(value, "fixture"@) {
            Err(error) => Err(error),
            Ok(root) => read_root(root),
        },
    }
}

fn check_header(root: &JsonObject) -> (r: Result<(), String>)
    ensures
        match r {
            Ok(_) => read_header(root@) is Ok,
            Err(error) => read_header(root@) == Err::<(), Seq<char>>(error@),
        },
{
    match number_field(root, "format_version") {
        Err(error) => return Err(error),
        Ok(version) => if version != 1 {
            return Err("expected format_version 1 declarative_parity_fixture".to_owned());
        },
    }
    match string_field(root, "kind") {
        Err(error) => Err(error),
        Ok(kind) => if same(kind, "declarative_parity_fixture") {
            Ok(())
        } else {
            Err("expected format_version 1 declarative_parity_fixture".to_owned())
        },
    }
}

impl Fixture {
    /// Read a fixture from its text.
    pub fn parse(input: &str) -> (r: Result<Fixture, String>)
        ensures
            match r {
                Ok(fixture) => read_fixture(input@) == Ok::<FixtureModel, Seq<char>>(fixture@)
                    && fixture.wf(),
                Err(error) => read_fixture(input@) == Err::<FixtureModel, Seq<char>>(error@),
            },
    {
        match JsonValue::parse(input) {
            Err(error) => Err(error.message),
            Ok(value) => match object(&value, "fixture") {
                Err(error) => Err(error),
                Ok(root) => Fixture::from_root(root),
            },
        }
    }

    /// There is a last turn to report.
    pub open spec fn wf(self) -> bool {
        self.turns@.len() > 0
    }

    fn from_root(root: &JsonObject) -> (r: Result<Fixture, String>)
        ensures
            match r {
                Ok(fixture) => read_root(root@) == Ok::<FixtureModel, Seq<char>>(fixture@)
                    && fixture.wf(),
                Err(error) => read_root(root@) == Err::<FixtureModel, Seq<char>>(error@),
            },
    {
        if let Err(error) = check_header(root) {
            return Err(error);
        }
        let setup = match inner_object(root, "setup", "setup") {
            Err(error) => return Err(error),
            Ok(setup) => setup,
        };
        let model = match inner_object(setup, "model", "setup.model") {
            Err(error) => return Err(error),
            Ok(model) => model,
        };
        let host = match inner_object(root, "host", "host") {
            Err(error) => return Err(error),
            Ok(host) => host,
        };
        let tools = match parse_tools(setup, host) {
            Err(error) => return Err(error),
            Ok(tools) => tools,
        };
        let actions = match field(root, "actions") {
            Err(error) => return Err(error),
            Ok(value) => match parse_actions(value) {
                Err(error) => return Err(error),
                Ok(actions) => actions,
            },
        };
        let turns = match field(root, "model_script") {
            Err(error) => return Err(error),
            Ok(value) => match parse_model_script(value) {
                Err(error) => return Err(error),
                Ok(turns) => turns,
            },
        };
        match Fixture::settings(root, setup, model, host) {
            Err(error) => Err(error),
            Ok(settings) => Ok(Fixture { tools, actions, turns, ..settings }),
        }
    }

    fn settings(
        root: &JsonObject,
        setup: &JsonObject,
        model: &JsonObject,
        host: &JsonObject,
    ) -> (r: Result<Fixture, String>)
        ensures
            ({
                let read = read_settings(root@, setup@, model@, host@);
                match r {
                    Ok(fixture) => read == Ok::<FixtureModel, Seq<char>>(fixture@),
                    Err(error) => read == Err::<FixtureModel, Seq<char>>(error@),
                }
            }),
    {
        let id = match string_field(root, "id") {
            Err(error) => return Err(error),
            Ok(id) => id.to_owned(),
        };
        let system_prompt = match string_field(setup, "system_prompt") {
            Err(error) => return Err(error),
            Ok(prompt) => prompt.to_owned(),
        };
        let provider = match string_field(model, "provider") {
            Err(error) => return Err(error),
            Ok(provider) => provider.to_owned(),
        };
        let model = match string_field(model, "id") {
            Err(error) => return Err(error),
            Ok(model) => model.to_owned(),
        };
        let thinking_level = match string_field(setup, "thinking_level") {
            Err(error) => return Err(error),
            Ok(level) => match parse_thinking_level(level) {
                Err(error) => return Err(error),
                Ok(level) => level,
            },
        };
        let steering_mode = match parse_queue_mode(setup.get("steering_mode")) {
            Err(error) => return Err(error),
            Ok(mode) => mode,
        };
        let follow_up_mode = match parse_queue_mode(setup.get("follow_up_mode")) {
            Err(error) => return Err(error),
            Ok(mode) => mode,
        };
        let before_tool_block = match parse_before_tool_block(host) {
            Err(error) => return Err(error),
            Ok(rule) => rule,
        };
        let after_tool_replace = match parse_after_tool_replace(host) {
            Err(error) => return Err(error),
            Ok(rule) => rule,
        };
        Ok(
            Fixture {
                id,
                system_prompt,
                provider,
                model,
                thinking_level,
                steering_mode,
                follow_up_mode,
                actions: Vec::new(),
                before_tool_block,
                after_tool_replace,
                tools: Vec::new(),
                turns: Vec::new(),
            },
        )
    }
}

} // verus!
