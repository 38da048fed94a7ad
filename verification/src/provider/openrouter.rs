//! OpenRouter Chat Completions adapter.
//!
//! The adapter owns its configuration, the payload it sends, the grammar it reads, and exact
//! accounting. HTTP, subprocesses and credentials files stay with the host, which reports each
//! attempt back.

use crate::decimal::is_digit;
use crate::json::{
    name_views, part_of, read_bytes, serde_from_slice, serde_from_str, serde_to_string, take_text,
    text_at_path, Json, JsonObject, JsonValue, NumberModel,
};
use crate::model::{duplicate_all, duplicate_opt, Duplicate};
use crate::provider::commandcode::effort_name;
use crate::provider::local::{
    call_id, cancelled_events, cancelled_stream, identify, is_negative, make_system, make_tools,
    negative, reason_of, stop_reason, system_form, text_events, tool_forms,
};
use crate::provider::transport::{attempt_repeatable, repeatable};
use crate::scheduler::{ModelRequest, ModelStream, ModelStreamEvent, RequestModel, StreamEventModel};
use crate::state::{
    add_cost, plus_cost, AssistantToolCall, CallModel, SerializedJson, Usage, UsageModel,
};
use crate::text::{
    chars_of, debug_quoted, digits, joined, lossy, push_number, quoted, replace, replaced, same,
    text_of, utf8_lossy,
};
use vstd::prelude::*;
use vstd::utf8::encode_utf8;

verus! {

broadcast use crate::model::group_views;

/// Characters of a response body that a diagnostic keeps.
pub const RESPONSE_PREFIX_CHARS: usize = 2048;

/// Explicit configuration that the adapter cannot use.
#[derive(Clone, Copy, Debug, Eq, PartialEq, Structural)]
pub enum OpenRouterConfigError {
    /// The stall timeout was zero.
    ZeroStallTimeout,
    /// The API key holds a line break, and cannot stand in a transport configuration.
    ApiKeyContainsLineBreak,
}

impl OpenRouterConfigError {
    /// Diagnostic text of a failure.
    pub open spec fn spec_text(self) -> Seq<char> {
        match self {
            OpenRouterConfigError::ZeroStallTimeout => {
                "OpenRouter stall timeout must be greater than zero"@
            },
            OpenRouterConfigError::ApiKeyContainsLineBreak => {
                "OpenRouter API key must not contain a line break"@
            },
        }
    }

    /// Diagnostic text of this failure.
    pub fn text(&self) -> (r: String)
        ensures
            r@ == self.spec_text(),
    {
        match self {
            OpenRouterConfigError::ZeroStallTimeout => {
                "OpenRouter stall timeout must be greater than zero".to_owned()
            },
            OpenRouterConfigError::ApiKeyContainsLineBreak => {
                "OpenRouter API key must not contain a line break".to_owned()
            },
        }
    }
}

/// Caller-owned configuration for [`OpenRouterProvider`].
///
/// The API key is supplied directly by the embedding. This adapter never reads an environment
/// variable, a home-directory credential, or a provider configuration file. The configuration
/// has no debug form that shows its key; see [`OpenRouterConfig::redacted`].
pub struct OpenRouterConfig {
    api_key: String,
    model: String,
    max_tokens: u64,
    request_timeout_secs: u64,
    stall_timeout_ms: u64,
}

/// Model of an [`OpenRouterConfig`].
#[verifier::ext_equal]
pub struct OpenRouterConfigModel {
    pub api_key: Seq<char>,
    pub model: Seq<char>,
    pub max_tokens: u64,
    pub request_timeout_secs: u64,
    pub stall_timeout_ms: u64,
}

impl View for OpenRouterConfig {
    type V = OpenRouterConfigModel;

    closed spec fn view(&self) -> OpenRouterConfigModel {
        OpenRouterConfigModel {
            api_key: self.api_key@,
            model: self.model@,
            max_tokens: self.max_tokens,
            request_timeout_secs: self.request_timeout_secs,
            stall_timeout_ms: self.stall_timeout_ms,
        }
    }
}

impl OpenRouterConfigModel {
    /// A configuration with the defaults.
    pub open spec fn defaults(api_key: Seq<char>, model: Seq<char>) -> OpenRouterConfigModel {
        OpenRouterConfigModel {
            api_key,
            model,
            max_tokens: 1024,
            request_timeout_secs: 300,
            stall_timeout_ms: 60_000,
        }
    }

    /// The first fault of a configuration.
    pub open spec fn fault(self) -> Option<OpenRouterConfigError> {
        if self.stall_timeout_ms == 0 {
            Some(OpenRouterConfigError::ZeroStallTimeout)
        } else if self.api_key.contains('\n') || self.api_key.contains('\r') {
            Some(OpenRouterConfigError::ApiKeyContainsLineBreak)
        } else {
            None
        }
    }
}

fn has_line_break(text: &str) -> (r: bool)
    ensures
        r == (text@.contains('\n') || text@.contains('\r')),
{
    let chars = chars_of(text);
    let mut i: usize = 0;
    while i < chars.len()
        invariant
            i <= chars@.len(),
            chars@ == text@,
            forall|k: int| 0 <= k < i ==> chars@[k] != '\n' && chars@[k] != '\r',
        decreases chars.len() - i,
    {
        if chars[i] == '\n' || chars[i] == '\r' {
            assert(text@.contains(chars@[i as int]));
            return true;
        }
        i = i + 1;
    }
    false
}

impl OpenRouterConfig {
    /// Configure one model with the default output cap of 1024 tokens.
    pub fn new(api_key: String, model: String) -> (r: Self)
        ensures
            r@ == OpenRouterConfigModel::defaults(api_key@, model@),
    {
        OpenRouterConfig {
            api_key,
            model,
            max_tokens: 1024,
            request_timeout_secs: 300,
            stall_timeout_ms: 60_000,
        }
    }

    /// Configure one model, and validate the configuration.
    pub fn try_new(api_key: String, model: String) -> (r: Result<Self, OpenRouterConfigError>)
        ensures
            match OpenRouterConfigModel::defaults(api_key@, model@).fault() {
                None => r matches Ok(config) && config@ == OpenRouterConfigModel::defaults(
                    api_key@,
                    model@,
                ),
                Some(error) => r == Err::<Self, OpenRouterConfigError>(error),
            },
    {
        let config = OpenRouterConfig::new(api_key, model);
        match config.validate() {
            Ok(()) => Ok(config),
            Err(error) => Err(error),
        }
    }

    /// Validate the explicit configuration.
    pub fn validate(&self) -> (r: Result<(), OpenRouterConfigError>)
        ensures
            match self@.fault() {
                None => r is Ok,
                Some(error) => r == Err::<(), OpenRouterConfigError>(error),
            },
    {
        if self.stall_timeout_ms == 0 {
            return Err(OpenRouterConfigError::ZeroStallTimeout);
        }
        if has_line_break(self.api_key.as_str()) {
            return Err(OpenRouterConfigError::ApiKeyContainsLineBreak);
        }
        Ok(())
    }

    /// The configured model identifier.
    pub fn model(&self) -> (r: &str)
        ensures
            r@ == self@.model,
    {
        self.model.as_str()
    }

    /// The key, for the transport.
    pub fn api_key(&self) -> (r: &str)
        ensures
            r@ == self@.api_key,
    {
        self.api_key.as_str()
    }

    /// Seconds that a request may take.
    pub fn request_timeout(&self) -> (r: u64)
        ensures
            r == self@.request_timeout_secs,
    {
        self.request_timeout_secs
    }

    /// Milliseconds without progress after which a request is stalled.
    pub fn stall_timeout(&self) -> (r: u64)
        ensures
            r == self@.stall_timeout_ms,
    {
        self.stall_timeout_ms
    }

    /// Replace the explicit maximum completion-token cap.
    pub fn with_max_tokens(self, max_tokens: u64) -> (r: Self)
        ensures
            r@ == (OpenRouterConfigModel { max_tokens, ..self@ }),
    {
        let mut config = self;
        config.max_tokens = max_tokens;
        assert(config@ =~= OpenRouterConfigModel { max_tokens, ..self@ });
        config
    }

    /// Replace the request timeout, in seconds.
    pub fn with_request_timeout(self, seconds: u64) -> (r: Self)
        ensures
            r@ == (OpenRouterConfigModel { request_timeout_secs: seconds, ..self@ }),
    {
        let mut config = self;
        config.request_timeout_secs = seconds;
        assert(config@ =~= OpenRouterConfigModel { request_timeout_secs: seconds, ..self@ });
        config
    }

    /// Replace the stall timeout, in milliseconds.
    pub fn with_stall_timeout(self, milliseconds: u64) -> (r: Self)
        ensures
            r@ == (OpenRouterConfigModel { stall_timeout_ms: milliseconds, ..self@ }),
    {
        let mut config = self;
        config.stall_timeout_ms = milliseconds;
        assert(config@ =~= OpenRouterConfigModel { stall_timeout_ms: milliseconds, ..self@ });
        config
    }

    /// A description for diagnostics, in which the key is redacted.
    pub fn redacted(&self) -> (r: String)
        ensures
            r@ == redacted_form(self@),
    {
        let mut out = "OpenRouterConfig { api_key: \"[redacted]\", model: ".to_owned();
        out.push_str(quoted(self.model.as_str()).as_str());
        out.push_str(", max_tokens: ");
        push_number(&mut out, self.max_tokens);
        out.push_str(" }");
        out
    }
}

/// A description of a configuration in which the key is redacted.
pub open spec fn redacted_form(config: OpenRouterConfigModel) -> Seq<char> {
    "OpenRouterConfig { api_key: \"[redacted]\", model: "@ + debug_quoted(config.model)
        + ", max_tokens: "@ + digits(config.max_tokens as nat) + " }"@
}

/// Diagnostics do not depend on the key.
pub proof fn law_diagnostics_hide_the_key(config: OpenRouterConfigModel, other: Seq<char>)
    ensures
        redacted_form(config) == redacted_form(OpenRouterConfigModel { api_key: other, ..config }),
{
}

/// Origin of one cost record.
#[derive(Clone, Copy, Debug, Eq, PartialEq, Structural)]
pub enum OpenRouterCostSource {
    /// The Chat Completions response supplied `usage.cost` directly.
    ChatUsage,
    /// A follow-up generation lookup supplied richer accounting metadata.
    Generation,
    /// OpenRouter reported neither usable chat nor generation accounting.
    Unavailable,
}

impl OpenRouterCostSource {
    /// Stable report spelling of a source.
    pub open spec fn spec_name(self) -> Seq<char> {
        match self {
            OpenRouterCostSource::ChatUsage => "openrouter_chat_usage"@,
            OpenRouterCostSource::Generation => "openrouter_generation"@,
            OpenRouterCostSource::Unavailable => "unavailable"@,
        }
    }

    /// Stable report spelling of this source.
    pub fn as_str(self) -> (r: &'static str)
        ensures
            r@ == self.spec_name(),
    {
        match self {
            OpenRouterCostSource::ChatUsage => "openrouter_chat_usage",
            OpenRouterCostSource::Generation => "openrouter_generation",
            OpenRouterCostSource::Unavailable => "unavailable",
        }
    }
}

/// Redacted, provider-reported cost for one model turn. Prices are exact decimal texts.
#[derive(Clone, Debug, Eq, PartialEq)]
pub struct OpenRouterCostTurn {
    /// One-based model-turn sequence in the provider instance.
    pub turn: usize,
    /// Accounting response that supplied this record.
    pub source: OpenRouterCostSource,
    /// Provider-reported total USD cost, if available.
    pub total_usd_exact: Option<String>,
    /// Provider-reported upstream inference USD cost, if available.
    pub upstream_inference_usd_exact: Option<String>,
    /// Concrete provider model, when OpenRouter supplied it.
    pub model: Option<String>,
    /// OpenRouter-selected provider name, when generation metadata supplied it.
    pub provider: Option<String>,
    /// Provider-reported input token count, if available.
    pub input_tokens: Option<u64>,
    /// Provider-reported output token count, if available.
    pub output_tokens: Option<u64>,
    /// Provider-reported cache-read token count, if available.
    pub cache_read_tokens: Option<u64>,
    /// Provider-reported cache-write token count, if available.
    pub cache_write_tokens: Option<u64>,
    /// Provider-reported reasoning token count, if available.
    pub reasoning_tokens: Option<u64>,
}

/// Model of an [`OpenRouterCostTurn`].
#[verifier::ext_equal]
pub struct CostTurnModel {
    pub turn: nat,
    pub source: OpenRouterCostSource,
    pub total_usd_exact: Option<Seq<char>>,
    pub upstream_inference_usd_exact: Option<Seq<char>>,
    pub model: Option<Seq<char>>,
    pub provider: Option<Seq<char>>,
    pub input_tokens: Option<u64>,
    pub output_tokens: Option<u64>,
    pub cache_read_tokens: Option<u64>,
    pub cache_write_tokens: Option<u64>,
    pub reasoning_tokens: Option<u64>,
}

impl View for OpenRouterCostTurn {
    type V = CostTurnModel;

    open spec fn view(&self) -> CostTurnModel {
        CostTurnModel {
            turn: self.turn as nat,
            source: self.source,
            total_usd_exact: crate::model::opt_view(self.total_usd_exact),
            upstream_inference_usd_exact: crate::model::opt_view(
                self.upstream_inference_usd_exact,
            ),
            model: crate::model::opt_view(self.model),
            provider: crate::model::opt_view(self.provider),
            input_tokens: self.input_tokens,
            output_tokens: self.output_tokens,
            cache_read_tokens: self.cache_read_tokens,
            cache_write_tokens: self.cache_write_tokens,
            reasoning_tokens: self.reasoning_tokens,
        }
    }
}

impl Duplicate for OpenRouterCostTurn {
    fn duplicate(&self) -> (r: Self) {
        OpenRouterCostTurn {
            turn: self.turn,
            source: self.source,
            total_usd_exact: duplicate_opt(&self.total_usd_exact),
            upstream_inference_usd_exact: duplicate_opt(&self.upstream_inference_usd_exact),
            model: duplicate_opt(&self.model),
            provider: duplicate_opt(&self.provider),
            input_tokens: self.input_tokens,
            output_tokens: self.output_tokens,
            cache_read_tokens: self.cache_read_tokens,
            cache_write_tokens: self.cache_write_tokens,
            reasoning_tokens: self.reasoning_tokens,
        }
    }
}

/// Snapshot of redacted provider accounting for all completed turns.
#[derive(Clone, Debug, Eq, PartialEq)]
pub struct OpenRouterCostReport {
    /// Number of turns for which OpenRouter reported a total price.
    pub reported_turn_count: usize,
    /// Number of turns without provider accounting.
    pub unavailable_turn_count: usize,
    /// Whether every completed turn has provider-reported cost.
    pub complete: bool,
    /// Exact sum of reported total USD values, if any. See `complete` before treating it as a
    /// run total.
    pub reported_total_usd_exact: Option<String>,
    /// Exact sum of reported upstream inference USD values, where supplied.
    pub reported_upstream_inference_usd_exact: Option<String>,
    /// Per-turn accounting records without request text, response IDs, raw payloads, or secrets.
    pub turns: Vec<OpenRouterCostTurn>,
}

/// The number of turns with a price.
pub open spec fn reported_count(costs: Seq<CostTurnModel>) -> nat
    decreases costs.len(),
{
    if costs.len() == 0 {
        0
    } else {
        reported_count(costs.drop_last()) + if costs.last().total_usd_exact is Some {
            1nat
        } else {
            0
        }
    }
}

/// The exact sum of the reported prices.
pub open spec fn total_price(costs: Seq<CostTurnModel>) -> Option<Seq<char>>
    decreases costs.len(),
{
    if costs.len() == 0 {
        None
    } else {
        plus_cost(total_price(costs.drop_last()), costs.last().total_usd_exact)
    }
}

/// The exact sum of the reported inference prices.
pub open spec fn total_inference(costs: Seq<CostTurnModel>) -> Option<Seq<char>>
    decreases costs.len(),
{
    if costs.len() == 0 {
        None
    } else {
        plus_cost(
            total_inference(costs.drop_last()),
            costs.last().upstream_inference_usd_exact,
        )
    }
}

proof fn lemma_reported_count(costs: Seq<CostTurnModel>)
    ensures
        reported_count(costs) <= costs.len(),
    decreases costs.len(),
{
    if costs.len() > 0 {
        lemma_reported_count(costs.drop_last());
    }
}

/// The text of a member.
pub open spec fn text_at(value: Json, key: Seq<char>) -> Option<Seq<char>> {
    match value.get(key) {
        Some(inner) => inner.string(),
        None => None,
    }
}

/// The text of a member, unless it is empty.
pub open spec fn filled_text_at(value: Json, key: Seq<char>) -> Option<Seq<char>> {
    match text_at(value, key) {
        Some(text) if text.len() > 0 => Some(text),
        _ => None,
    }
}

/// The count of a member.
pub open spec fn count_at(value: Json, key: Seq<char>) -> Option<u64> {
    match value.get(key) {
        Some(inner) => inner.natural(),
        None => None,
    }
}

/// Whether the text of a JSON value is that of a number.
pub open spec fn is_number_text(text: Seq<char>) -> bool {
    text.len() > 0 && (text[0] == '-' || is_digit(text[0]))
}

/// The number that a path of member names leads to, in the digits that the bytes write.
pub open spec fn exact_number(bytes: Seq<u8>, path: Seq<Seq<char>>) -> Option<Seq<char>> {
    match text_at_path(bytes, path) {
        Some(text) if is_number_text(text) => Some(text),
        _ => None,
    }
}

/// The price that a path of member names leads to: a number that is not negative, in the digits
/// that the bytes write.
pub open spec fn price_at(bytes: Seq<u8>, path: Seq<Seq<char>>) -> Option<Seq<char>> {
    match exact_number(bytes, path) {
        Some(text) if !is_negative(text) => Some(text),
        _ => None,
    }
}

/// Read the number that a path of member names leads to, without converting it: its text is a
/// part of the bytes.
pub fn exact_number_at_path(bytes: &[u8], path: &[&str]) -> (r: Option<String>)
    ensures
        crate::model::opt_view(r) == exact_number(bytes@, name_views(path@)),
        r matches Some(text) ==> part_of(encode_utf8(text@), bytes@),
{
    let text = match take_text(bytes, path) {
        None => return None,
        Some(text) => text,
    };
    let chars = chars_of(text.as_str());
    if chars.len() > 0 && (chars[0] == '-' || ('0' <= chars[0] && chars[0] <= '9')) {
        Some(text)
    } else {
        None
    }
}

fn price_at_path(bytes: &[u8], path: &[&str]) -> (r: Option<String>)
    ensures
        crate::model::opt_view(r) == price_at(bytes@, name_views(path@)),
        r matches Some(text) ==> part_of(encode_utf8(text@), bytes@),
{
    let text = match exact_number_at_path(bytes, path) {
        None => return None,
        Some(text) => text,
    };
    if negative(text.as_str()) {
        None
    } else {
        Some(text)
    }
}

fn text_member<'a>(value: &'a JsonValue, key: &str) -> (r: Option<&'a str>)
    ensures
        match r {
            Some(text) => text_at(value@, key@) == Some(text@),
            None => text_at(value@, key@) is None,
        },
{
    match value.get(key) {
        Some(inner) => inner.as_str(),
        None => None,
    }
}

fn owned(text: Option<&str>) -> (r: Option<String>)
    ensures
        crate::model::opt_view(r) == match text {
            Some(text) => Some(text@),
            None => None,
        },
{
    match text {
        Some(text) => Some(text.to_owned()),
        None => None,
    }
}

fn filled(text: Option<&str>) -> (r: Option<&str>)
    ensures
        match r {
            Some(found) => text matches Some(t) && found@ == t@ && t@.len() > 0,
            None => text matches Some(t) ==> t@.len() == 0,
        },
{
    if let Some(found) = text {
        if !found.is_empty() {
            return Some(found);
        }
    }
    None
}

fn count_member(value: &JsonValue, key: &str) -> (r: Option<u64>)
    ensures
        r == count_at(value@, key@),
{
    match value.get(key) {
        Some(inner) => inner.as_u64(),
        None => None,
    }
}

/// What was read of a completion.
#[derive(Debug)]
pub struct ParsedResponse {
    /// Events of the completion; the last one is terminal.
    pub events: Vec<ModelStreamEvent>,
    /// Token counts of the completion.
    pub usage: Usage,
    /// Identifier for a lookup of the generation's accounting.
    pub generation_id: Option<String>,
    /// Price that the completion itself reports.
    pub inline_cost: Option<OpenRouterCostTurn>,
}

/// Model of a [`ParsedResponse`].
#[verifier::ext_equal]
pub struct ParsedModel {
    pub events: Seq<StreamEventModel>,
    pub usage: UsageModel,
    pub generation_id: Option<Seq<char>>,
    pub inline_cost: Option<CostTurnModel>,
}

impl View for ParsedResponse {
    type V = ParsedModel;

    open spec fn view(&self) -> ParsedModel {
        ParsedModel {
            events: crate::model::views(self.events@),
            usage: self.usage@,
            generation_id: crate::model::opt_view(self.generation_id),
            inline_cost: crate::model::opt_view(self.inline_cost),
        }
    }
}

/// A part of a response that was read, or its diagnostic.
pub type Read<T> = Result<T, Seq<char>>;

/// One requested call of a completion.
pub open spec fn read_call(call: Json, index: nat) -> Read<CallModel> {
    match call.get("function"@) {
        Some(Json::Object(function)) => match filled_text_at(Json::Object(function), "name"@) {
            None => Err("OpenRouter tool call did not contain a name"@),
            Some(name) => match text_at(Json::Object(function), "arguments"@) {
                None => Err("OpenRouter tool call did not contain serialized arguments"@),
                Some(arguments) => Ok(
                    CallModel {
                        id: call_id(text_at(call, "id"@), "openrouter-call-"@, index),
                        name,
                        arguments,
                    },
                ),
            },
        },
        _ => Err("OpenRouter tool call did not contain a function"@),
    }
}

/// The events of the requested calls of a completion, in order.
pub open spec fn read_calls(calls: Seq<Json>) -> Read<Seq<StreamEventModel>>
    decreases calls.len(),
{
    if calls.len() == 0 {
        Ok(Seq::empty())
    } else {
        match read_calls(calls.drop_last()) {
            Err(error) => Err(error),
            Ok(before) => match read_call(calls.last(), (calls.len() - 1) as nat) {
                Err(error) => Err(error),
                Ok(call) => Ok(before.push(StreamEventModel::ToolCall(call))),
            },
        }
    }
}

proof fn lemma_calls_prefix(calls: Seq<Json>, k: int)
    requires
        0 <= k <= calls.len(),
        read_calls(calls.take(k)) is Err,
    ensures
        read_calls(calls) == read_calls(calls.take(k)),
    decreases calls.len() - k,
{
    if k == calls.len() {
        assert(calls.take(k) =~= calls);
    } else {
        assert(calls.take(k + 1).drop_last() =~= calls.take(k));
        lemma_calls_prefix(calls, k + 1);
    }
}

fn parse_call(call: &JsonValue, index: usize) -> (r: Result<AssistantToolCall, String>)
    ensures
        match r {
            Ok(read) => read_call(call@, index as nat) == Ok::<CallModel, Seq<char>>(read@),
            Err(error) => read_call(call@, index as nat) == Err::<CallModel, Seq<char>>(error@),
        },
{
    broadcast use crate::json::lemma_value_shape;

    let function = match call.get("function") {
        Some(function) => function,
        None => {
            return Err("OpenRouter tool call did not contain a function".to_owned());
        },
    };
    if function.as_object().is_none() {
        return Err("OpenRouter tool call did not contain a function".to_owned());
    }
    let name = match filled(text_member(function, "name")) {
        Some(name) => name,
        None => {
            return Err("OpenRouter tool call did not contain a name".to_owned());
        },
    };
    let arguments = match text_member(function, "arguments") {
        Some(arguments) => arguments,
        None => {
            return Err("OpenRouter tool call did not contain serialized arguments".to_owned());
        },
    };
    let id = identify(text_member(call, "id"), "openrouter-call-", index);
    Ok(
        AssistantToolCall {
            id,
            name: name.to_owned(),
            arguments: SerializedJson::new(arguments.to_owned()),
        },
    )
}

/// The requested calls of a message.
pub open spec fn calls_of(message: Json) -> Seq<Json> {
    match message.get("tool_calls"@) {
        Some(Json::Array(calls)) => calls,
        _ => Seq::empty(),
    }
}

/// The events of a completion choice.
pub open spec fn choice_events(choice: Json) -> Read<Seq<StreamEventModel>> {
    match choice.get("message"@) {
        Some(Json::Object(object)) => {
            let message = Json::Object(object);
            let calls = calls_of(message);
            match read_calls(calls) {
                Err(error) => Err(error),
                Ok(events) => Ok(
                    (text_events(text_at(message, "content"@)) + events).push(
                        StreamEventModel::End(
                            reason_of(text_at(choice, "finish_reason"@), calls.len() > 0),
                        ),
                    ),
                ),
            }
        },
        _ => Err("OpenRouter completion choice did not contain a message"@),
    }
}

/// A member of a member.
pub open spec fn nested(value: Json, outer: Seq<char>, inner: Seq<char>) -> Option<u64> {
    match value.get(outer) {
        Some(details) => count_at(details, inner),
        None => None,
    }
}

/// The usage report of a response.
pub open spec fn usage_report(response: Json) -> Json {
    match response.get("usage"@) {
        Some(usage) => usage,
        None => Json::Null,
    }
}

/// The token counts of a completion.
pub open spec fn usage_of(usage: Json) -> UsageModel {
    UsageModel {
        input_tokens: count_at(usage, "prompt_tokens"@),
        output_tokens: count_at(usage, "completion_tokens"@),
        reasoning_tokens: nested(usage, "completion_tokens_details"@, "reasoning_tokens"@),
        ..UsageModel::unreported()
    }
}

/// Where a completion reports its price.
pub open spec fn cost_path() -> Seq<Seq<char>> {
    seq!["usage"@, "cost"@]
}

/// Where a generation's accounting reports its price.
pub open spec fn total_cost_path() -> Seq<Seq<char>> {
    seq!["data"@, "total_cost"@]
}

/// Where a generation's accounting reports the price of the inference.
pub open spec fn inference_cost_path() -> Seq<Seq<char>> {
    seq!["data"@, "upstream_inference_cost"@]
}

/// The record of a completion that itself reports this price.
pub open spec fn inline_cost(response: Json, price: Option<Seq<char>>) -> Option<CostTurnModel> {
    let usage = usage_report(response);
    match price {
        None => None,
        Some(price) => Some(
            CostTurnModel {
                turn: 0,
                source: OpenRouterCostSource::ChatUsage,
                total_usd_exact: Some(price),
                upstream_inference_usd_exact: None,
                model: text_at(response, "model"@),
                provider: None,
                input_tokens: usage_of(usage).input_tokens,
                output_tokens: usage_of(usage).output_tokens,
                cache_read_tokens: nested(usage, "prompt_tokens_details"@, "cached_tokens"@),
                cache_write_tokens: nested(
                    usage,
                    "prompt_tokens_details"@,
                    "cache_write_tokens"@,
                ),
                reasoning_tokens: usage_of(usage).reasoning_tokens,
            },
        ),
    }
}

/// What a response that was read gives, with the price that its bytes report.
pub open spec fn completion_of(response: Json, price: Option<Seq<char>>) -> Read<ParsedModel> {
    if response.get("error"@) is Some {
        Err("OpenRouter rejected the request"@)
    } else {
        match response.get("choices"@) {
            Some(Json::Array(choices)) if choices.len() > 0 => match choice_events(choices[0]) {
                Err(error) => Err(error),
                Ok(events) => Ok(
                    ParsedModel {
                        events,
                        usage: usage_of(usage_report(response)),
                        generation_id: filled_text_at(response, "id"@),
                        inline_cost: inline_cost(response, price),
                    },
                ),
            },
            _ => Err("OpenRouter response did not contain a completion choice"@),
        }
    }
}

pub(crate) fn parse_choice(choice: &JsonValue) -> (r: Result<Vec<ModelStreamEvent>, String>)
    ensures
        match r {
            Ok(events) => choice_events(choice@) == Ok::<_, Seq<char>>(
                crate::model::views(events@),
            ) && events@.len() > 0,
            Err(error) => choice_events(choice@) == Err::<Seq<StreamEventModel>, Seq<char>>(
                error@,
            ),
        },
{
    broadcast use crate::json::lemma_value_shape;

    let message = match choice.get("message") {
        Some(message) => message,
        None => {
            return Err("OpenRouter completion choice did not contain a message".to_owned());
        },
    };
    if message.as_object().is_none() {
        return Err("OpenRouter completion choice did not contain a message".to_owned());
    }
    let mut events: Vec<ModelStreamEvent> = Vec::new();
    let text = text_member(message, "content");
    let ghost head = text_events(text_at(message@, "content"@));
    if let Some(text) = filled(text) {
        events.push(ModelStreamEvent::TextDelta(text.to_owned()));
    }
    assert(crate::model::views(events@) =~= head);
    let mut has_calls = false;
    let ghost all = calls_of(message@);
    let ghost mut made: Seq<StreamEventModel> = Seq::empty();
    assert(head + made =~= head);
    let found = match message.get("tool_calls") {
        Some(calls) => calls.as_array(),
        None => None,
    };
    if let Some(calls) = found {
        let mut i: usize = 0;
        while i < calls.len()
            invariant
                i <= calls@.len(),
                all == crate::model::views(calls@),
                read_calls(all.take(i as int)) == Ok::<Seq<StreamEventModel>, Seq<char>>(made),
                crate::model::views(events@) == head + made,
                has_calls == (i > 0),
                read_calls(all) is Err ==> choice_events(choice@) == Err::<
                    Seq<StreamEventModel>,
                    Seq<char>,
                >(read_calls(all)->Err_0),
            decreases calls.len() - i,
        {
            proof {
                assert(all.take(i + 1).drop_last() =~= all.take(i as int));
                assert(all.take(i + 1).last() == calls@[i as int]@);
            }
            match parse_call(&calls[i], i) {
                Err(error) => {
                    proof {
                        lemma_calls_prefix(all, i + 1);
                    }
                    return Err(error);
                },
                Ok(call) => {
                    events.push(ModelStreamEvent::ToolCall(call));
                    proof {
                        let longer = made.push(StreamEventModel::ToolCall(call@));
                        assert(head + longer =~= (head + made).push(
                            StreamEventModel::ToolCall(call@),
                        ));
                        made = longer;
                    }
                },
            }
            has_calls = true;
            i = i + 1;
        }
        assert(all.take(i as int) =~= all);
    }
    let reason = stop_reason(text_member(choice, "finish_reason"), has_calls);
    events.push(ModelStreamEvent::End(reason));
    Ok(events)
}

fn nested_count(value: &JsonValue, outer: &str, inner: &str) -> (r: Option<u64>)
    ensures
        r == nested(value@, outer@, inner@),
{
    match value.get(outer) {
        Some(details) => count_member(details, inner),
        None => None,
    }
}

pub(crate) fn parse_usage(usage: &JsonValue) -> (r: Usage)
    ensures
        r@ == usage_of(usage@),
{
    let mut out = Usage::default();
    out.input_tokens = count_member(usage, "prompt_tokens");
    out.output_tokens = count_member(usage, "completion_tokens");
    out.reasoning_tokens = nested_count(usage, "completion_tokens_details", "reasoning_tokens");
    out
}

fn parse_inline_cost(
    response: &JsonValue,
    report: &JsonValue,
    usage: &Usage,
    price: Option<String>,
) -> (r: Option<OpenRouterCostTurn>)
    requires
        report@ == usage_report(response@),
        usage@ == usage_of(report@),
    ensures
        crate::model::opt_view(r) == inline_cost(response@, crate::model::opt_view(price)),
{
    match price {
        None => None,
        Some(price) => Some(
            OpenRouterCostTurn {
                turn: 0,
                source: OpenRouterCostSource::ChatUsage,
                total_usd_exact: Some(price),
                upstream_inference_usd_exact: None,
                model: owned(text_member(response, "model")),
                provider: None,
                input_tokens: usage.input_tokens,
                output_tokens: usage.output_tokens,
                cache_read_tokens: nested_count(report, "prompt_tokens_details", "cached_tokens"),
                cache_write_tokens: nested_count(
                    report,
                    "prompt_tokens_details",
                    "cache_write_tokens",
                ),
                reasoning_tokens: usage.reasoning_tokens,
            },
        ),
    }
}

/// Read a completion whose bytes report this price.
pub fn parse_completion(response: &JsonValue, price: Option<String>) -> (r: Result<
    ParsedResponse,
    String,
>)
    ensures
        match r {
            Ok(parsed) => completion_of(response@, crate::model::opt_view(price)) == Ok::<
                ParsedModel,
                Seq<char>,
            >(parsed@) && parsed.events@.len() > 0,
            Err(error) => completion_of(response@, crate::model::opt_view(price)) == Err::<
                ParsedModel,
                Seq<char>,
            >(error@),
        },
{
    if response.get("error").is_some() {
        return Err("OpenRouter rejected the request".to_owned());
    }
    let found = match response.get("choices") {
        Some(choices) => choices.as_array(),
        None => None,
    };
    let choices = match found {
        Some(choices) => choices,
        None => {
            return Err("OpenRouter response did not contain a completion choice".to_owned());
        },
    };
    if choices.len() == 0 {
        return Err("OpenRouter response did not contain a completion choice".to_owned());
    }
    assert(crate::model::views(choices@)[0] == choices@[0]@);
    let events = match parse_choice(&choices[0]) {
        Err(error) => return Err(error),
        Ok(events) => events,
    };
    let report = match response.get("usage") {
        Some(usage) => usage.duplicate(),
        None => JsonValue::null(),
    };
    let usage = parse_usage(&report);
    let inline_cost = parse_inline_cost(response, &report, &usage, price);
    let generation_id = owned(filled(text_member(response, "id")));
    Ok(ParsedResponse { events, usage, generation_id, inline_cost })
}

/// What the bytes of a response give.
pub open spec fn response_of(bytes: Seq<u8>) -> Read<ParsedModel> {
    match serde_from_slice(bytes) {
        None => Err("OpenRouter returned a non-JSON response"@),
        Some(response) => completion_of(response, price_at(bytes, cost_path())),
    }
}

/// Whether a price is written, digit by digit, in the bytes.
pub open spec fn written_in(price: Option<Seq<char>>, bytes: Seq<u8>) -> bool {
    price matches Some(text) ==> part_of(encode_utf8(text), bytes)
}

/// Read the bytes of a completion. A price keeps the digits of the bytes.
pub fn parse_response(bytes: &[u8]) -> (r: Result<ParsedResponse, String>)
    ensures
        match r {
            Ok(parsed) => response_of(bytes@) == Ok::<ParsedModel, Seq<char>>(parsed@)
                && parsed.events@.len() > 0 && (parsed.inline_cost matches Some(cost)
                ==> written_in(cost@.total_usd_exact, bytes@)),
            Err(error) => response_of(bytes@) == Err::<ParsedModel, Seq<char>>(error@),
        },
{
    match read_bytes(bytes) {
        None => Err("OpenRouter returned a non-JSON response".to_owned()),
        Some(response) => {
            let path = ["usage", "cost"];
            let price = price_at_path(bytes, &path);
            assert(name_views(path@) =~= cost_path());
            parse_completion(&response, price)
        },
    }
}

/// A count, or the one that the completion reported.
pub open spec fn or_count(own: Option<u64>, fallback: Option<u64>) -> Option<u64> {
    match own {
        Some(n) => Some(n),
        None => fallback,
    }
}

fn or(own: Option<u64>, fallback: Option<u64>) -> (r: Option<u64>)
    ensures
        r == or_count(own, fallback),
{
    match own {
        Some(n) => Some(n),
        None => fallback,
    }
}

/// The accounting of a generation that was read, with the prices that its bytes report. Its
/// identifier is not kept.
pub open spec fn generation_of(
    response: Json,
    total: Option<Seq<char>>,
    inference: Option<Seq<char>>,
    fallback: UsageModel,
) -> Option<CostTurnModel> {
    match response.get("data"@) {
        None => None,
        Some(data) => match total {
            None => None,
            Some(price) => Some(
                CostTurnModel {
                    turn: 0,
                    source: OpenRouterCostSource::Generation,
                    total_usd_exact: Some(price),
                    upstream_inference_usd_exact: inference,
                    model: text_at(data, "model"@),
                    provider: text_at(data, "provider_name"@),
                    input_tokens: or_count(count_at(data, "tokens_prompt"@), fallback.input_tokens),
                    output_tokens: or_count(
                        count_at(data, "tokens_completion"@),
                        fallback.output_tokens,
                    ),
                    cache_read_tokens: count_at(data, "tokens_cached"@),
                    cache_write_tokens: count_at(data, "tokens_cache_write"@),
                    reasoning_tokens: or_count(
                        count_at(data, "tokens_reasoning"@),
                        fallback.reasoning_tokens,
                    ),
                },
            ),
        },
    }
}

/// What the bytes of a generation's accounting give.
pub open spec fn accounting_in(bytes: Seq<u8>, fallback: UsageModel) -> Option<CostTurnModel> {
    match serde_from_slice(bytes) {
        None => None,
        Some(response) => generation_of(
            response,
            price_at(bytes, total_cost_path()),
            price_at(bytes, inference_cost_path()),
            fallback,
        ),
    }
}

/// Read the accounting of a generation whose bytes report these prices.
pub fn read_generation(
    response: &JsonValue,
    total: Option<String>,
    inference: Option<String>,
    fallback_usage: &Usage,
) -> (r: Option<OpenRouterCostTurn>)
    ensures
        crate::model::opt_view(r) == generation_of(
            response@,
            crate::model::opt_view(total),
            crate::model::opt_view(inference),
            fallback_usage@,
        ),
{
    let data = match response.get("data") {
        None => {
            return None;
        },
        Some(data) => data,
    };
    match total {
        None => None,
        Some(price) => Some(
            OpenRouterCostTurn {
                turn: 0,
                source: OpenRouterCostSource::Generation,
                total_usd_exact: Some(price),
                upstream_inference_usd_exact: inference,
                model: owned(text_member(data, "model")),
                provider: owned(text_member(data, "provider_name")),
                input_tokens: or(
                    count_member(data, "tokens_prompt"),
                    fallback_usage.input_tokens,
                ),
                output_tokens: or(
                    count_member(data, "tokens_completion"),
                    fallback_usage.output_tokens,
                ),
                cache_read_tokens: count_member(data, "tokens_cached"),
                cache_write_tokens: count_member(data, "tokens_cache_write"),
                reasoning_tokens: or(
                    count_member(data, "tokens_reasoning"),
                    fallback_usage.reasoning_tokens,
                ),
            },
        ),
    }
}

/// Read the bytes of a generation's accounting. Its prices keep the digits of the bytes.
pub fn parse_generation_cost(bytes: &[u8], fallback_usage: &Usage) -> (r: Option<
    OpenRouterCostTurn,
>)
    ensures
        crate::model::opt_view(r) == accounting_in(bytes@, fallback_usage@),
        r matches Some(cost) ==> written_in(cost@.total_usd_exact, bytes@) && written_in(
            cost@.upstream_inference_usd_exact,
            bytes@,
        ),
{
    match read_bytes(bytes) {
        None => None,
        Some(response) => {
            let total_path = ["data", "total_cost"];
            let inference_path = ["data", "upstream_inference_cost"];
            let total = price_at_path(bytes, &total_path);
            let inference = price_at_path(bytes, &inference_path);
            assert(name_views(total_path@) =~= total_cost_path());
            assert(name_views(inference_path@) =~= inference_cost_path());
            read_generation(&response, total, inference, fallback_usage)
        },
    }
}

/// The record of a turn without provider accounting.
pub open spec fn unpriced(usage: UsageModel, model: Seq<char>) -> CostTurnModel {
    CostTurnModel {
        turn: 0,
        source: OpenRouterCostSource::Unavailable,
        total_usd_exact: None,
        upstream_inference_usd_exact: None,
        model: Some(model),
        provider: None,
        input_tokens: usage.input_tokens,
        output_tokens: usage.output_tokens,
        cache_read_tokens: None,
        cache_write_tokens: None,
        reasoning_tokens: usage.reasoning_tokens,
    }
}

/// The record of a turn without provider accounting.
pub fn unavailable_cost(usage: &Usage, model: &str) -> (r: OpenRouterCostTurn)
    ensures
        r@ == unpriced(usage@, model@),
{
    OpenRouterCostTurn {
        turn: 0,
        source: OpenRouterCostSource::Unavailable,
        total_usd_exact: None,
        upstream_inference_usd_exact: None,
        model: Some(model.to_owned()),
        provider: None,
        input_tokens: usage.input_tokens,
        output_tokens: usage.output_tokens,
        cache_read_tokens: None,
        cache_write_tokens: None,
        reasoning_tokens: usage.reasoning_tokens,
    }
}

/// Whether a status is that of a transient failure.
pub open spec fn transient(status: u64) -> bool {
    status == 408 || status == 429 || 500 <= status < 600
}

/// Whether an HTTP status is that of a transient failure.
pub fn openrouter_status_retryable(status: Option<u16>) -> (r: bool)
    ensures
        r == (status matches Some(code) && transient(code as u64)),
{
    match status {
        Some(code) => code == 408 || code == 429 || (500 <= code && code < 600),
        None => false,
    }
}

/// Whether a response that was read reports a transient failure.
pub open spec fn reports_transient(response: Json) -> bool {
    match response.get("error"@) {
        Some(error) => count_at(error, "code"@) matches Some(code) && transient(code),
        None => false,
    }
}

/// Whether a response that was read reports a transient failure.
pub fn is_transient(response: &JsonValue) -> (r: bool)
    ensures
        r == reports_transient(response@),
{
    match response.get("error") {
        None => false,
        Some(error) => match count_member(error, "code") {
            Some(code) => code == 408 || code == 429 || (500 <= code && code < 600),
            None => false,
        },
    }
}

/// Whether the bytes of a response report a transient failure.
pub open spec fn bytes_transient(bytes: Seq<u8>) -> bool {
    serde_from_slice(bytes) matches Some(response) && reports_transient(response)
}

/// Whether the bytes of a response report a transient failure.
pub fn openrouter_response_retryable(bytes: &[u8]) -> (r: bool)
    ensures
        r == bytes_transient(bytes@),
{
    match read_bytes(bytes) {
        None => false,
        Some(response) => is_transient(&response),
    }
}

/// The bounded, redacted beginning of a response body.
pub open spec fn prefix_of(body: Seq<u8>, key: Option<Seq<char>>) -> Seq<char> {
    let text = match key {
        Some(key) => replaced(utf8_lossy(body), key, "[redacted]"@),
        None => utf8_lossy(body),
    };
    if text.len() > RESPONSE_PREFIX_CHARS {
        text.take(RESPONSE_PREFIX_CHARS as int)
    } else {
        text
    }
}

/// The bounded, redacted beginning of a response body, for trusted diagnostics.
pub fn response_body_prefix(body: &[u8], key: Option<&str>) -> (r: String)
    ensures
        r@ == prefix_of(
            body@,
            match key {
                Some(key) => Some(key@),
                None => None,
            },
        ),
        r@.len() <= RESPONSE_PREFIX_CHARS,
{
    let whole = lossy(body);
    let text = match key {
        Some(key) => replace(whole.as_str(), key, "[redacted]"),
        None => whole,
    };
    let chars = chars_of(text.as_str());
    if chars.len() > RESPONSE_PREFIX_CHARS {
        let prefix = text_of(&chars, 0, RESPONSE_PREFIX_CHARS);
        assert(prefix@ =~= text@.take(RESPONSE_PREFIX_CHARS as int));
        prefix
    } else {
        text
    }
}

/// The source of the most recent failure.
#[derive(Clone, Copy, Debug, Eq, PartialEq, Structural)]
pub enum OpenRouterErrorSource {
    /// The transport or its capture boundary failed.
    Transport,
    /// OpenRouter returned a response that the adapter could not accept.
    Response,
    /// The adapter rejected a request before transport.
    Adapter,
}

impl OpenRouterErrorSource {
    /// The name of a source in diagnostics.
    pub open spec fn spec_name(self) -> Seq<char> {
        match self {
            OpenRouterErrorSource::Transport => "transport"@,
            OpenRouterErrorSource::Response => "response"@,
            OpenRouterErrorSource::Adapter => "adapter"@,
        }
    }

    fn as_str(self) -> (r: &'static str)
        ensures
            r@ == self.spec_name(),
    {
        match self {
            OpenRouterErrorSource::Transport => "transport",
            OpenRouterErrorSource::Response => "response",
            OpenRouterErrorSource::Adapter => "adapter",
        }
    }
}

/// Bounded diagnostic for the most recent failure.
///
/// The agent-facing stream error remains a stable adapter message. Hosts that own a private
/// diagnostic sink can use this report to distinguish transport, HTTP, and response-shape
/// failures without retaining the API key or an unbounded provider body.
#[derive(Clone, Debug, Eq, PartialEq)]
pub struct OpenRouterErrorReport {
    /// Failure boundary that produced the report.
    pub source: OpenRouterErrorSource,
    /// Stable local adapter message.
    pub message: String,
    /// HTTP status observed in the captured response headers.
    pub status_code: Option<u16>,
    /// Whether the adapter classified the failure as retryable.
    pub retryable: bool,
    /// One-based attempt number within the current completion request.
    pub attempt: u32,
    /// Total response body bytes captured before parsing.
    pub response_bytes: Option<u64>,
    /// Total request payload bytes sent to the provider.
    pub request_bytes: Option<u64>,
    /// Bounded, redacted response body prefix for trusted diagnostics.
    pub response_prefix: Option<String>,
}

/// Model of an [`OpenRouterErrorReport`].
#[verifier::ext_equal]
pub struct ReportModel {
    pub source: OpenRouterErrorSource,
    pub message: Seq<char>,
    pub status_code: Option<u16>,
    pub retryable: bool,
    pub attempt: u32,
    pub response_bytes: Option<u64>,
    pub request_bytes: Option<u64>,
    pub response_prefix: Option<Seq<char>>,
}

impl View for OpenRouterErrorReport {
    type V = ReportModel;

    open spec fn view(&self) -> ReportModel {
        ReportModel {
            source: self.source,
            message: self.message@,
            status_code: self.status_code,
            retryable: self.retryable,
            attempt: self.attempt,
            response_bytes: self.response_bytes,
            request_bytes: self.request_bytes,
            response_prefix: crate::model::opt_view(self.response_prefix),
        }
    }
}

impl Duplicate for OpenRouterErrorReport {
    fn duplicate(&self) -> (r: Self) {
        OpenRouterErrorReport {
            source: self.source,
            message: self.message.clone(),
            status_code: self.status_code,
            retryable: self.retryable,
            attempt: self.attempt,
            response_bytes: self.response_bytes,
            request_bytes: self.request_bytes,
            response_prefix: duplicate_opt(&self.response_prefix),
        }
    }
}

/// An optional number behind a name.
pub open spec fn labelled(label: Seq<char>, n: Option<u64>) -> Seq<char> {
    match n {
        Some(n) => label + digits(n as nat),
        None => Seq::empty(),
    }
}

impl ReportModel {
    /// Diagnostic text of a report.
    pub open spec fn text(self) -> Seq<char> {
        "source="@ + self.source.spec_name() + " message="@ + debug_quoted(self.message)
            + " retryable="@ + (if self.retryable {
            "true"@
        } else {
            "false"@
        }) + " attempt="@ + digits(self.attempt as nat) + labelled(
            " status_code="@,
            match self.status_code {
                Some(code) => Some(code as u64),
                None => None,
            },
        ) + labelled(" response_bytes="@, self.response_bytes) + labelled(
            " request_bytes="@,
            self.request_bytes,
        ) + match self.response_prefix {
            Some(prefix) => " response_prefix="@ + debug_quoted(prefix),
            None => Seq::empty(),
        }
    }
}

fn push_labelled(out: &mut String, label: &str, n: Option<u64>)
    ensures
        final(out)@ == old(out)@ + labelled(label@, n),
{
    match n {
        Some(n) => {
            let ghost before = out@;
            out.push_str(label);
            push_number(out, n);
            assert(out@ =~= before + (label@ + digits(n as nat)));
        },
        None => {
            assert(out@ =~= out@ + Seq::<char>::empty());
        },
    }
}

impl OpenRouterErrorReport {
    /// Diagnostic text of this report.
    pub fn text(&self) -> (r: String)
        ensures
            r@ == self@.text(),
    {
        let mut out = joined("source=", self.source.as_str());
        out.push_str(" message=");
        out.push_str(quoted(self.message.as_str()).as_str());
        out.push_str(" retryable=");
        if self.retryable {
            out.push_str("true");
        } else {
            out.push_str("false");
        }
        out.push_str(" attempt=");
        push_number(&mut out, self.attempt as u64);
        let status = match self.status_code {
            Some(code) => Some(code as u64),
            None => None,
        };
        push_labelled(&mut out, " status_code=", status);
        push_labelled(&mut out, " response_bytes=", self.response_bytes);
        push_labelled(&mut out, " request_bytes=", self.request_bytes);
        let ghost before = out@;
        match &self.response_prefix {
            Some(prefix) => {
                out.push_str(" response_prefix=");
                out.push_str(quoted(prefix.as_str()).as_str());
                assert(out@ =~= before + (" response_prefix="@ + debug_quoted(prefix@)));
            },
            None => {
                assert(out@ =~= before + Seq::<char>::empty());
            },
        }
        out
    }
}

/// OpenRouter adapter.
///
/// The host performs each attempt and reports it back. Every failed attempt leaves a report,
/// and every accepted completion its accounting.
pub struct OpenRouterProvider {
    config: OpenRouterConfig,
    usage: Usage,
    costs: Vec<OpenRouterCostTurn>,
    last_error: Option<OpenRouterErrorReport>,
}

/// Model of an [`OpenRouterProvider`].
#[verifier::ext_equal]
pub struct OpenRouterModel {
    pub config: OpenRouterConfigModel,
    pub usage: UsageModel,
    pub costs: Seq<CostTurnModel>,
    pub last_error: Option<ReportModel>,
}

impl View for OpenRouterProvider {
    type V = OpenRouterModel;

    closed spec fn view(&self) -> OpenRouterModel {
        OpenRouterModel {
            config: self.config@,
            usage: self.usage@,
            costs: crate::model::views(self.costs@),
            last_error: crate::model::opt_view(self.last_error),
        }
    }
}

/// Why a request cannot be served.
pub open spec fn refusal(config: OpenRouterConfigModel, request: RequestModel) -> Option<
    Seq<char>,
> {
    match config.fault() {
        Some(error) => Some(error.spec_text()),
        None => match request.model {
            None => Some("OpenRouter request omitted its exact model descriptor"@),
            Some(model) => if model.provider == "openrouter"@ && model.model == config.model {
                None
            } else {
                Some(
                    "OpenRouter configuration does not match requested model: expected openrouter/"@
                        + config.model + ", got "@ + model.provider + "/"@ + model.model,
                )
            },
        },
    }
}

/// The payload of a request whose conversation was read.
pub open spec fn payload_form(
    config: OpenRouterConfigModel,
    request: RequestModel,
    messages: Seq<Json>,
) -> Json {
    let base = map![
        "model"@ => Json::String(config.model),
        "messages"@ => Json::Array(seq![system_form(request.system_prompt)] + messages),
        "temperature"@ => Json::Number(NumberModel::Int(0)),
        "max_tokens"@ => Json::Number(NumberModel::Int(config.max_tokens as int)),
        "stream"@ => Json::Bool(false),
    ];
    let thoughtful = match effort_name(request.thinking_level) {
        Some(effort) => base.insert(
            "reasoning"@,
            Json::Object(map!["effort"@ => Json::String(effort)]),
        ),
        None => base,
    };
    Json::Object(
        if request.tools.len() == 0 {
            thoughtful
        } else {
            thoughtful.insert("tools"@, Json::Array(tool_forms(request.tools)))
        },
    )
}

/// The payload of a request, or why it cannot be sent.
pub open spec fn payload_of(config: OpenRouterConfigModel, request: RequestModel) -> Read<Json> {
    match serde_from_str(request.context) {
        Err(_) => Err("OpenRouter received invalid converted context"@),
        Ok(Json::Array(messages)) => Ok(payload_form(config, request, messages)),
        Ok(_) => Err("OpenRouter converted context must be an array"@),
    }
}

/// The payload of a request whose conversation was read.
pub fn make_payload(config: &OpenRouterConfig, request: &ModelRequest, context: &JsonValue) -> (r:
    Result<JsonValue, String>)
    ensures
        match context@ {
            Json::Array(messages) => r matches Ok(payload) && payload@ == payload_form(
                config@,
                request@,
                messages,
            ),
            _ => r matches Err(e) && e@ == "OpenRouter converted context must be an array"@,
        },
{
    let read = match context.as_array() {
        None => {
            return Err("OpenRouter converted context must be an array".to_owned());
        },
        Some(messages) => messages,
    };
    let mut messages: Vec<JsonValue> = Vec::new();
    messages.push(make_system(request.system_prompt.as_str()));
    let mut rest = duplicate_all(read);
    messages.append(&mut rest);
    proof {
        assert(crate::model::views(messages@) =~= seq![system_form(request@.system_prompt)]
            + crate::model::views(read@));
    }
    let mut payload = JsonObject::new().with("model", JsonValue::text(config.model.as_str())).with(
        "messages",
        JsonValue::array(messages),
    ).with("temperature", JsonValue::unsigned(0)).with(
        "max_tokens",
        JsonValue::unsigned(config.max_tokens),
    ).with("stream", JsonValue::flag(false));
    if let Some(effort) = crate::provider::commandcode::reasoning_effort(request.thinking_level) {
        let reasoning = JsonObject::new().with("effort", JsonValue::text(effort));
        payload = payload.with("reasoning", JsonValue::object(reasoning));
    }
    if request.tools.len() > 0 {
        payload = payload.with("tools", JsonValue::array(make_tools(&request.tools)));
    }
    Ok(JsonValue::object(payload))
}

/// The payload of a request.
pub fn build_payload(config: &OpenRouterConfig, request: &ModelRequest) -> (r: Result<
    String,
    String,
>)
    ensures
        match payload_of(config@, request@) {
            Ok(payload) => r matches Ok(text) && text@ == serde_to_string(payload),
            Err(error) => r matches Err(e) && e@ == error,
        },
{
    let context = match JsonValue::parse(request.context.as_str()) {
        Err(_) => {
            return Err("OpenRouter received invalid converted context".to_owned());
        },
        Ok(context) => context,
    };
    match make_payload(config, request, &context) {
        Ok(payload) => Ok(payload.to_json_string()),
        Err(error) => Err(error),
    }
}

/// What a request is answered before transport.
pub open spec fn prepared(config: OpenRouterConfigModel, request: RequestModel) -> Read<
    Seq<char>,
> {
    match refusal(config, request) {
        Some(error) => Err(error),
        None => match payload_of(config, request) {
            Ok(payload) => Ok(serde_to_string(payload)),
            Err(error) => Err(error),
        },
    }
}

/// The report of a request that the adapter rejected.
pub open spec fn rejection(message: Seq<char>) -> ReportModel {
    ReportModel {
        source: OpenRouterErrorSource::Adapter,
        message,
        status_code: None,
        retryable: false,
        attempt: 0,
        response_bytes: None,
        request_bytes: None,
        response_prefix: None,
    }
}

/// A failed attempt.
#[derive(Debug)]
pub struct RetryableError {
    /// Whether the request may be sent again.
    pub retryable: bool,
    /// Stable local adapter message.
    pub message: String,
}

/// The accounting record of a completion: its own price, else that of its generation, else
/// none.
pub open spec fn cost_of(
    parsed: ParsedModel,
    generation: Option<CostTurnModel>,
    model: Seq<char>,
) -> CostTurnModel {
    match parsed.inline_cost {
        Some(cost) => cost,
        None => match generation {
            Some(cost) => cost,
            None => unpriced(parsed.usage, model),
        },
    }
}

/// The usage of a completion together with its accounting record.
pub open spec fn settled_usage(usage: UsageModel, cost: CostTurnModel) -> UsageModel {
    UsageModel {
        cache_read_tokens: or_count(usage.cache_read_tokens, cost.cache_read_tokens),
        cache_write_tokens: or_count(usage.cache_write_tokens, cost.cache_write_tokens),
        cost: cost.total_usd_exact,
        ..usage
    }
}

/// The events of a settled completion: its usage, if reported, stands before the terminal one.
pub open spec fn settled_events(events: Seq<StreamEventModel>, usage: UsageModel) -> Seq<
    StreamEventModel,
> {
    if usage == UsageModel::unreported() {
        events
    } else {
        events.drop_last().push(StreamEventModel::Usage(usage)).push(events.last())
    }
}

impl OpenRouterModel {
    /// The adapter after the accounting of one turn.
    pub open spec fn recorded(self, usage: UsageModel, cost: CostTurnModel) -> OpenRouterModel {
        OpenRouterModel {
            usage: self.usage.plus(usage),
            costs: self.costs.push(CostTurnModel { turn: self.costs.len() + 1, ..cost }),
            ..self
        }
    }
}

impl OpenRouterProvider {
    /// Construct an adapter from explicit caller-owned configuration.
    pub fn new(config: OpenRouterConfig) -> (r: Self)
        ensures
            r@ == (OpenRouterModel {
                config: config@,
                usage: UsageModel::unreported(),
                costs: Seq::empty(),
                last_error: None,
            }),
    {
        let r = OpenRouterProvider {
            config,
            usage: Usage::default(),
            costs: Vec::new(),
            last_error: None,
        };
        assert(r@.costs =~= Seq::<CostTurnModel>::empty());
        r
    }

    /// The configuration.
    pub fn config(&self) -> (r: &OpenRouterConfig)
        ensures
            r@ == self@.config,
    {
        &self.config
    }

    /// The most recent adapter or provider failure.
    pub fn last_error_report(&self) -> (r: Option<OpenRouterErrorReport>)
        ensures
            crate::model::opt_view(r) == self@.last_error,
    {
        duplicate_opt(&self.last_error)
    }

    /// Aggregate portable token usage across settled turns.
    pub fn usage_snapshot(&self) -> (r: Usage)
        ensures
            r@ == self@.usage,
    {
        self.usage.duplicate()
    }

    /// A redacted snapshot of provider-reported cost accounting.
    pub fn cost_report(&self) -> (r: OpenRouterCostReport)
        ensures
            r.reported_turn_count == reported_count(self@.costs),
            r.unavailable_turn_count == self@.costs.len() - reported_count(self@.costs),
            r.complete == (reported_count(self@.costs) == self@.costs.len()),
            crate::model::opt_view(r.reported_total_usd_exact) == total_price(self@.costs),
            crate::model::opt_view(r.reported_upstream_inference_usd_exact) == total_inference(
                self@.costs,
            ),
            crate::model::views(r.turns@) == self@.costs,
    {
        let ghost costs = self@.costs;
        let mut reported: usize = 0;
        let mut total: Option<String> = None;
        let mut inference: Option<String> = None;
        let mut i: usize = 0;
        while i < self.costs.len()
            invariant
                i <= self.costs@.len(),
                costs == crate::model::views(self.costs@),
                reported <= i,
                reported == reported_count(costs.take(i as int)),
                crate::model::opt_view(total) == total_price(costs.take(i as int)),
                crate::model::opt_view(inference) == total_inference(costs.take(i as int)),
            decreases self.costs.len() - i,
        {
            let cost = &self.costs[i];
            proof {
                assert(costs.take(i + 1).drop_last() =~= costs.take(i as int));
                assert(costs.take(i + 1).last() == cost@);
            }
            if cost.total_usd_exact.is_some() {
                reported = reported + 1;
            }
            total = add_cost(&total, &cost.total_usd_exact);
            inference = add_cost(&inference, &cost.upstream_inference_usd_exact);
            i = i + 1;
        }
        proof {
            assert(costs.take(i as int) =~= costs);
            lemma_reported_count(costs);
        }
        OpenRouterCostReport {
            reported_turn_count: reported,
            unavailable_turn_count: self.costs.len() - reported,
            complete: reported == self.costs.len(),
            reported_total_usd_exact: total,
            reported_upstream_inference_usd_exact: inference,
            turns: duplicate_all(&self.costs),
        }
    }

    /// Record the accounting of one turn.
    pub fn record(&mut self, usage: &Usage, cost: OpenRouterCostTurn)
        requires
            old(self)@.costs.len() < usize::MAX,
        ensures
            final(self)@ == old(self)@.recorded(usage@, cost@),
    {
        let ghost before = self@;
        self.usage.accumulate(usage);
        let mut cost = cost;
        let ghost given = cost@;
        cost.turn = self.costs.len() + 1;
        self.costs.push(cost);
        proof {
            assert(cost@ =~= CostTurnModel { turn: before.costs.len() + 1, ..given });
            assert(self@ =~= before.recorded(usage@, given));
        }
    }

    /// Accept a request for the configured model.
    pub fn validate_model(&self, request: &ModelRequest) -> (r: Result<(), String>)
        ensures
            match refusal(self@.config, request@) {
                None => r is Ok,
                Some(error) => r matches Err(e) && e@ == error,
            },
    {
        if let Err(error) = self.config.validate() {
            return Err(error.text());
        }
        match &request.model {
            None => Err("OpenRouter request omitted its exact model descriptor".to_owned()),
            Some(model) => {
                if same(model.provider.as_str(), "openrouter") && same(
                    model.model.as_str(),
                    self.config.model.as_str(),
                ) {
                    return Ok(());
                }
                let mut error = joined(
                    "OpenRouter configuration does not match requested model: expected openrouter/",
                    self.config.model.as_str(),
                );
                error.push_str(", got ");
                error.push_str(model.provider.as_str());
                error.push_str("/");
                error.push_str(model.model.as_str());
                Err(error)
            },
        }
    }

    /// The payload of a request for the configured model. A rejected request leaves a report.
    pub fn prepare(&mut self, request: &ModelRequest) -> (r: Result<String, String>)
        ensures
            match prepared(old(self)@.config, request@) {
                Ok(text) => r matches Ok(payload) && payload@ == text && final(self)@
                    == (OpenRouterModel { last_error: None, ..old(self)@ }),
                Err(error) => r matches Err(e) && e@ == error && final(self)@
                    == (OpenRouterModel { last_error: Some(rejection(error)), ..old(self)@ }),
            },
    {
        let ghost before = self@;
        self.last_error = None;
        assert(self@ =~= OpenRouterModel { last_error: None, ..before });
        let outcome = match self.validate_model(request) {
            Err(error) => Err(error),
            Ok(()) => build_payload(&self.config, request),
        };
        match outcome {
            Ok(payload) => Ok(payload),
            Err(message) => {
                self.last_error = Some(
                    OpenRouterErrorReport {
                        source: OpenRouterErrorSource::Adapter,
                        message: message.clone(),
                        status_code: None,
                        retryable: false,
                        attempt: 0,
                        response_bytes: None,
                        request_bytes: None,
                        response_prefix: None,
                    },
                );
                assert(self@ =~= OpenRouterModel {
                    last_error: Some(rejection(message@)),
                    ..before
                });
                Err(message)
            },
        }
    }

    /// Forget the most recent failure.
    pub fn clear_error(&mut self)
        ensures
            final(self)@ == (OpenRouterModel { last_error: None, ..old(self)@ }),
    {
        let ghost before = self@;
        self.last_error = None;
        assert(self@ =~= OpenRouterModel { last_error: None, ..before });
    }

    /// Take an attempt that the transport failed. It may be retried if the provider had not begun
    /// to respond and the request was not cancelled.
    pub fn transport_failed(
        &mut self,
        message: String,
        attempt: u32,
        request_bytes: u64,
        cancelled: bool,
    ) -> (r: RetryableError)
        ensures
            r.retryable == (!cancelled && repeatable(message@)),
            r.message@ == message@,
            final(self)@ == (OpenRouterModel {
                last_error: Some(
                    ReportModel {
                        source: OpenRouterErrorSource::Transport,
                        message: message@,
                        status_code: None,
                        retryable: !cancelled && repeatable(message@),
                        attempt,
                        response_bytes: None,
                        request_bytes: Some(request_bytes),
                        response_prefix: None,
                    },
                ),
                ..old(self)@
            }),
    {
        let ghost before = self@;
        let retryable = !cancelled && attempt_repeatable(message.as_str());
        let report = OpenRouterErrorReport {
            source: OpenRouterErrorSource::Transport,
            message: message.clone(),
            status_code: None,
            retryable,
            attempt,
            response_bytes: None,
            request_bytes: Some(request_bytes),
            response_prefix: None,
        };
        self.last_error = Some(report);
        assert(self@ =~= OpenRouterModel { last_error: Some(report@), ..before });
        RetryableError { retryable, message }
    }

    /// Take an attempt that the transport delivered.
    ///
    /// The key is redacted from what a refused response leaves behind.
    pub fn read_response(
        &mut self,
        body: &[u8],
        status_code: Option<u16>,
        attempt: u32,
        request_bytes: u64,
    ) -> (r: Result<ParsedResponse, RetryableError>)
        ensures
            match response_of(body@) {
                Ok(model) => r matches Ok(parsed) && parsed@ == model && parsed.events@.len() > 0
                    && final(self)@ == old(self)@,
                Err(text) => {
                    let key = old(self)@.config.api_key;
                    let message = replaced(text, key, "[redacted]"@);
                    let retryable = (status_code matches Some(code) && transient(code as u64))
                        || bytes_transient(body@);
                    &&& r matches Err(e)
                    &&& e.retryable == retryable
                    &&& e.message@ == message
                    &&& final(self)@ == (OpenRouterModel {
                        last_error: Some(
                            ReportModel {
                                source: OpenRouterErrorSource::Response,
                                message,
                                status_code,
                                retryable,
                                attempt,
                                response_bytes: Some(body@.len() as u64),
                                request_bytes: Some(request_bytes),
                                response_prefix: Some(prefix_of(body@, Some(key))),
                            },
                        ),
                        ..old(self)@
                    })
                },
            },
    {
        let ghost before = self@;
        match parse_response(body) {
            Ok(parsed) => Ok(parsed),
            Err(text) => {
                let retryable = openrouter_status_retryable(status_code)
                    || openrouter_response_retryable(body);
                let key = self.config.api_key.as_str();
                let message = replace(text.as_str(), key, "[redacted]");
                let report = OpenRouterErrorReport {
                    source: OpenRouterErrorSource::Response,
                    message: message.clone(),
                    status_code,
                    retryable,
                    attempt,
                    response_bytes: Some(body.len() as u64),
                    request_bytes: Some(request_bytes),
                    response_prefix: Some(response_body_prefix(body, Some(key))),
                };
                self.last_error = Some(report);
                assert(self@ =~= OpenRouterModel { last_error: Some(report@), ..before });
                Err(RetryableError { retryable, message })
            },
        }
    }

    /// Settle an accepted completion: account for it, and give its stream.
    ///
    /// `generation` is what a lookup gave; it is only made where the completion itself reports
    /// no price.
    pub fn finish(
        &mut self,
        parsed: ParsedResponse,
        generation: Option<OpenRouterCostTurn>,
    ) -> (r: ModelStream)
        requires
            parsed.events@.len() > 0,
            old(self)@.costs.len() < usize::MAX,
        ensures
            ({
                let cost = cost_of(
                    parsed@,
                    crate::model::opt_view(generation),
                    old(self)@.config.model,
                );
                let usage = settled_usage(parsed@.usage, cost);
                &&& crate::model::views(r.events@) == settled_events(parsed@.events, usage)
                &&& final(self)@ == (OpenRouterModel {
                    last_error: None,
                    ..old(self)@
                }).recorded(usage, cost)
            }),
    {
        let ghost before = self@;
        self.last_error = None;
        assert(self@ =~= OpenRouterModel { last_error: None, ..before });
        let ghost model = parsed@;
        let cost = match parsed.inline_cost {
            Some(cost) => cost,
            None => match generation {
                Some(cost) => cost,
                None => unavailable_cost(&parsed.usage, self.config.model.as_str()),
            },
        };
        let mut usage = parsed.usage;
        usage.cache_read_tokens = or(usage.cache_read_tokens, cost.cache_read_tokens);
        usage.cache_write_tokens = or(usage.cache_write_tokens, cost.cache_write_tokens);
        usage.cost = duplicate_opt(&cost.total_usd_exact);
        assert(usage@ =~= settled_usage(model.usage, cost@));
        self.record(&usage, cost);
        let mut events = parsed.events;
        if usage.is_reported() {
            let ghost all = crate::model::views(events@);
            if let Some(terminal) = events.pop() {
                assert(crate::model::views(events@) =~= all.drop_last());
                events.push(ModelStreamEvent::Usage(usage));
                events.push(terminal);
            }
        }
        ModelStream { events }
    }

    /// The stream of a request that failed. Cancellation hides the failure.
    pub fn failed_stream(message: String, cancelled: bool) -> (r: ModelStream)
        ensures
            crate::model::views(r.events@) == if cancelled {
                cancelled_events()
            } else {
                seq![StreamEventModel::Error { message: message@ }]
            },
    {
        if cancelled {
            return cancelled_stream();
        }
        let mut events: Vec<ModelStreamEvent> = Vec::new();
        events.push(ModelStreamEvent::Error { message });
        assert(crate::model::views(events@)
            =~= seq![StreamEventModel::Error { message: message@ }]);
        ModelStream { events }
    }
}

/// How often, and how soon, a failed request is sent again.
#[derive(Clone, Copy, Debug, Eq, PartialEq, Structural)]
pub struct RetryPolicy {
    /// Attempts after the first one.
    pub max_retries: u32,
    /// Milliseconds before the first retry; each further one waits as much longer.
    pub base_delay_ms: u64,
}

impl Default for RetryPolicy {
    fn default() -> (r: Self)
        ensures
            r == (RetryPolicy { max_retries: 2, base_delay_ms: 150 }),
    {
        RetryPolicy { max_retries: 2, base_delay_ms: 150 }
    }
}

impl RetryPolicy {
    /// Attempts after the first one.
    pub fn max_retries(&self) -> (r: u32)
        ensures
            r == self.max_retries,
    {
        self.max_retries
    }

    /// Milliseconds to wait after an attempt, counted from zero.
    pub fn delay_before_retry(&self, attempt: u32) -> (r: u64)
        ensures
            r == if self.base_delay_ms * (attempt + 1) > u64::MAX {
                u64::MAX as int
            } else {
                self.base_delay_ms * (attempt + 1)
            },
    {
        match self.base_delay_ms.checked_mul(attempt as u64 + 1) {
            Some(delay) => delay,
            None => u64::MAX,
        }
    }

    /// Whether an attempt, counted from one, that failed is followed by another.
    pub fn retries(&self, attempt: u32, retryable: bool, cancelled: bool) -> (r: bool)
        ensures
            r == (retryable && !cancelled && attempt <= self.max_retries),
    {
        retryable && !cancelled && attempt <= self.max_retries
    }
}

/// The exact sum of prices does not depend on any rounding: each turn with a price is counted,
/// and a report is complete exactly when no turn lacks one.
pub proof fn law_complete_report_prices_every_turn(costs: Seq<CostTurnModel>)
    ensures
        reported_count(costs) == costs.len() <==> forall|i: int|
            0 <= i < costs.len() ==> (#[trigger] costs[i]).total_usd_exact is Some,
    decreases costs.len(),
{
    if costs.len() > 0 {
        let before = costs.drop_last();
        law_complete_report_prices_every_turn(before);
        lemma_reported_count(before);
        assert(costs[costs.len() - 1] == costs.last());
        assert forall|i: int| 0 <= i < before.len() implies #[trigger] before[i] == costs[i] by {}
        if reported_count(costs) == costs.len() {
            assert forall|i: int| 0 <= i < costs.len() implies (
            #[trigger] costs[i]).total_usd_exact is Some by {
                if i < before.len() {
                    assert(before[i].total_usd_exact is Some);
                }
            }
        }
    }
}

} // verus!
