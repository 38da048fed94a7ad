//! Local OpenAI-compatible Chat Completions adapter.
//!
//! This adapter is transport-specific but server-agnostic: the caller supplies a base URL and
//! model, and the host sends one finite `chat/completions` request. It does not discover a
//! server, read credentials, inspect the home directory, or select a model from the environment.

use crate::json::{
    member, read_bytes, serde_from_slice, serde_from_str, serde_to_string, Json, JsonObject,
    JsonValue, NumberModel,
};
use crate::model::{duplicate_all, Duplicate};
use crate::provider::http::{Failure, Response};
use crate::scheduler::{ModelRequest, ModelStream, ModelStreamEvent, RequestModel, StreamEventModel};
use crate::state::{
    AssistantToolCall, CallModel, SerializedJson, StopReason, ThinkingLevel, ToolCallId, Usage,
    UsageModel,
};
use crate::text::{
    blank, chars_of, debug_quoted, decode, digits, is_blank, joined, number_of, parse_number,
    push_number, quoted, same, stands_at, starts_with, text_of, trim, trim_end, trim_start,
};
use crate::tool::{DefinitionModel, ToolDefinition};
use vstd::prelude::*;
use vstd::utf8::{decode_utf8, valid_utf8};

verus! {

broadcast use crate::model::group_views;

/// The model identifier exposed by the documented 5-bit Laguna checkpoint.
pub const LAGUNA_XS_2_1_MODEL: &'static str = "Laguna-XS-2.1-5bit";

/// Default local OpenAI-compatible API root used by oMLX.
pub const DEFAULT_BASE_URL: &'static str = "http://127.0.0.1:8000/v1";

/// Configuration failure at the local provider boundary.
#[derive(Clone, Debug, Eq, PartialEq)]
pub enum LocalConfigError {
    /// A required caller-supplied text value was empty.
    EmptyField(&'static str),
    /// The base URL must use an HTTP URL.
    InvalidBaseUrl,
    /// The maximum output-token cap was zero.
    ZeroMaxTokens,
    /// A sampling value was not finite or was outside the server's accepted range.
    InvalidSampling(&'static str),
    /// The request timeout was zero.
    ZeroRequestTimeout,
}

impl LocalConfigError {
    /// Diagnostic text of a failure.
    pub open spec fn spec_text(self) -> Seq<char> {
        match self {
            LocalConfigError::EmptyField(field) => "local "@ + field@ + " must not be empty"@,
            LocalConfigError::InvalidBaseUrl => {
                "local base URL must start with http:// or https://"@
            },
            LocalConfigError::ZeroMaxTokens => "local max tokens must be greater than zero"@,
            LocalConfigError::InvalidSampling(field) => "local "@ + field@
                + " must be finite and non-negative"@,
            LocalConfigError::ZeroRequestTimeout => {
                "local request timeout must be greater than zero"@
            },
        }
    }

    /// Diagnostic text of this failure.
    pub fn text(&self) -> (r: String)
        ensures
            r@ == self.spec_text(),
    {
        match self {
            LocalConfigError::EmptyField(field) => {
                let mut out = joined("local ", field);
                out.push_str(" must not be empty");
                out
            },
            LocalConfigError::InvalidBaseUrl => {
                "local base URL must start with http:// or https://".to_owned()
            },
            LocalConfigError::ZeroMaxTokens => {
                "local max tokens must be greater than zero".to_owned()
            },
            LocalConfigError::InvalidSampling(field) => {
                let mut out = joined("local ", field);
                out.push_str(" must be finite and non-negative");
                out
            },
            LocalConfigError::ZeroRequestTimeout => {
                "local request timeout must be greater than zero".to_owned()
            },
        }
    }
}

/// Caller-owned configuration for [`LocalProvider`].
///
/// Sampling values are held by their decimal text; a value that is not finite has none.
#[derive(Debug)]
pub struct LocalConfig {
    base_url: String,
    model: String,
    max_tokens: u64,
    temperature: Option<String>,
    top_p: Option<String>,
    min_p: Option<String>,
    enable_thinking: bool,
    request_timeout_ms: u64,
}

/// Model of a [`LocalConfig`].
#[verifier::ext_equal]
pub struct LocalConfigModel {
    pub base_url: Seq<char>,
    pub model: Seq<char>,
    pub max_tokens: u64,
    pub temperature: Option<Seq<char>>,
    pub top_p: Option<Seq<char>>,
    pub min_p: Option<Seq<char>>,
    pub enable_thinking: bool,
    pub request_timeout_ms: u64,
}

impl View for LocalConfig {
    type V = LocalConfigModel;

    closed spec fn view(&self) -> LocalConfigModel {
        LocalConfigModel {
            base_url: self.base_url@,
            model: self.model@,
            max_tokens: self.max_tokens,
            temperature: crate::model::opt_view(self.temperature),
            top_p: crate::model::opt_view(self.top_p),
            min_p: crate::model::opt_view(self.min_p),
            enable_thinking: self.enable_thinking,
            request_timeout_ms: self.request_timeout_ms,
        }
    }
}

/// Whether a decimal text writes a number below zero.
pub open spec fn is_negative(text: Seq<char>) -> bool {
    text.len() > 0 && text[0] == '-' && exists|i: int|
        0 <= i < text.len() && '1' <= #[trigger] text[i] <= '9'
}

/// Whether a sampling value is finite and not negative.
pub open spec fn usable(value: Option<Seq<char>>) -> bool {
    value matches Some(text) && !is_negative(text)
}

/// Whether a decimal text writes a number below zero.
pub(crate) fn negative(text: &str) -> (r: bool)
    ensures
        r == is_negative(text@),
{
    let chars = chars_of(text);
    if chars.len() == 0 || chars[0] != '-' {
        return false;
    }
    let mut i: usize = 0;
    while i < chars.len()
        invariant
            chars@ == text@,
            chars@.len() > 0 && chars@[0] == '-',
            i <= chars@.len(),
            forall|k: int| 0 <= k < i ==> !('1' <= #[trigger] chars@[k] <= '9'),
        decreases chars.len() - i,
    {
        if '1' <= chars[i] && chars[i] <= '9' {
            assert('1' <= text@[i as int] <= '9');
            return true;
        }
        i = i + 1;
    }
    false
}

fn is_usable(value: &Option<String>) -> (r: bool)
    ensures
        r == usable(crate::model::opt_view(*value)),
{
    match value {
        Some(text) => !negative(text.as_str()),
        None => false,
    }
}

impl LocalConfigModel {
    /// The first fault of a configuration.
    pub open spec fn fault(self) -> Option<LocalConfigError> {
        if is_blank(self.base_url) {
            Some(LocalConfigError::EmptyField("base URL"))
        } else if !stands_at(self.base_url, "http://"@, 0) && !stands_at(
            self.base_url,
            "https://"@,
            0,
        ) {
            Some(LocalConfigError::InvalidBaseUrl)
        } else if is_blank(self.model) {
            Some(LocalConfigError::EmptyField("model"))
        } else if self.max_tokens == 0 {
            Some(LocalConfigError::ZeroMaxTokens)
        } else if !usable(self.temperature) {
            Some(LocalConfigError::InvalidSampling("temperature"))
        } else if !usable(self.top_p) {
            Some(LocalConfigError::InvalidSampling("top_p"))
        } else if !usable(self.min_p) {
            Some(LocalConfigError::InvalidSampling("min_p"))
        } else if self.request_timeout_ms == 0 {
            Some(LocalConfigError::ZeroRequestTimeout)
        } else {
            None
        }
    }

    /// A configuration with the defaults.
    pub open spec fn defaults(base_url: Seq<char>, model: Seq<char>) -> LocalConfigModel {
        LocalConfigModel {
            base_url,
            model,
            max_tokens: 4_096,
            temperature: Some("1.0"@),
            top_p: Some("1.0"@),
            min_p: Some("0.0"@),
            enable_thinking: true,
            request_timeout_ms: 300_000,
        }
    }
}

impl LocalConfig {
    /// Configure a local OpenAI-compatible model with Laguna-compatible defaults.
    pub fn new(base_url: String, model: String) -> (r: Self)
        ensures
            r@ == LocalConfigModel::defaults(base_url@, model@),
    {
        LocalConfig {
            base_url,
            model,
            max_tokens: 4_096,
            temperature: Some("1.0".to_owned()),
            top_p: Some("1.0".to_owned()),
            min_p: Some("0.0".to_owned()),
            enable_thinking: true,
            request_timeout_ms: 300_000,
        }
    }

    /// Configure the oMLX Laguna XS 2.1 5-bit endpoint with its known request defaults.
    pub fn laguna_xs_2_1(base_url: String) -> (r: Self)
        ensures
            r@ == LocalConfigModel::defaults(base_url@, LAGUNA_XS_2_1_MODEL@),
    {
        LocalConfig::new(base_url, LAGUNA_XS_2_1_MODEL.to_owned())
    }

    /// Borrow the configured local API root.
    pub fn base_url(&self) -> (r: &str)
        ensures
            r@ == self@.base_url,
    {
        self.base_url.as_str()
    }

    /// Borrow the configured model identifier.
    pub fn model(&self) -> (r: &str)
        ensures
            r@ == self@.model,
    {
        self.model.as_str()
    }

    /// Whether the chat template's reasoning mode is enabled.
    pub fn thinking(&self) -> (r: bool)
        ensures
            r == self@.enable_thinking,
    {
        self.enable_thinking
    }

    /// Milliseconds that a request may take.
    pub fn request_timeout_ms(&self) -> (r: u64)
        ensures
            r == self@.request_timeout_ms,
    {
        self.request_timeout_ms
    }

    /// Replace the maximum number of generated tokens.
    pub fn with_max_tokens(self, max_tokens: u64) -> (r: Self)
        ensures
            r@ == (LocalConfigModel { max_tokens, ..self@ }),
    {
        let mut config = self;
        config.max_tokens = max_tokens;
        assert(config@ =~= LocalConfigModel { max_tokens, ..self@ });
        config
    }

    /// Replace the sampling temperature.
    pub fn with_temperature(self, temperature: Option<String>) -> (r: Self)
        ensures
            r@ == (LocalConfigModel { temperature: crate::model::opt_view(temperature), ..self@ }),
    {
        let mut config = self;
        config.temperature = temperature;
        assert(config@ =~= LocalConfigModel {
            temperature: crate::model::opt_view(temperature),
            ..self@
        });
        config
    }

    /// Replace nucleus sampling probability.
    pub fn with_top_p(self, top_p: Option<String>) -> (r: Self)
        ensures
            r@ == (LocalConfigModel { top_p: crate::model::opt_view(top_p), ..self@ }),
    {
        let mut config = self;
        config.top_p = top_p;
        assert(config@ =~= LocalConfigModel { top_p: crate::model::opt_view(top_p), ..self@ });
        config
    }

    /// Replace minimum probability sampling threshold.
    pub fn with_min_p(self, min_p: Option<String>) -> (r: Self)
        ensures
            r@ == (LocalConfigModel { min_p: crate::model::opt_view(min_p), ..self@ }),
    {
        let mut config = self;
        config.min_p = min_p;
        assert(config@ =~= LocalConfigModel { min_p: crate::model::opt_view(min_p), ..self@ });
        config
    }

    /// Enable or disable the model's chat-template reasoning mode.
    pub fn with_thinking(self, enabled: bool) -> (r: Self)
        ensures
            r@ == (LocalConfigModel { enable_thinking: enabled, ..self@ }),
    {
        let mut config = self;
        config.enable_thinking = enabled;
        assert(config@ =~= LocalConfigModel { enable_thinking: enabled, ..self@ });
        config
    }

    /// Replace the complete request timeout, in milliseconds.
    pub fn with_request_timeout(self, timeout_ms: u64) -> (r: Self)
        ensures
            r@ == (LocalConfigModel { request_timeout_ms: timeout_ms, ..self@ }),
    {
        let mut config = self;
        config.request_timeout_ms = timeout_ms;
        assert(config@ =~= LocalConfigModel { request_timeout_ms: timeout_ms, ..self@ });
        config
    }

    /// Validate the explicit configuration before constructing a provider.
    pub fn validate(&self) -> (r: Result<(), LocalConfigError>)
        ensures
            match self@.fault() {
                None => r is Ok,
                Some(error) => r == Err::<(), LocalConfigError>(error),
            },
    {
        if blank(self.base_url.as_str()) {
            return Err(LocalConfigError::EmptyField("base URL"));
        }
        if !starts_with(self.base_url.as_str(), "http://") && !starts_with(
            self.base_url.as_str(),
            "https://",
        ) {
            return Err(LocalConfigError::InvalidBaseUrl);
        }
        if blank(self.model.as_str()) {
            return Err(LocalConfigError::EmptyField("model"));
        }
        if self.max_tokens == 0 {
            return Err(LocalConfigError::ZeroMaxTokens);
        }
        if !is_usable(&self.temperature) {
            return Err(LocalConfigError::InvalidSampling("temperature"));
        }
        if !is_usable(&self.top_p) {
            return Err(LocalConfigError::InvalidSampling("top_p"));
        }
        if !is_usable(&self.min_p) {
            return Err(LocalConfigError::InvalidSampling("min_p"));
        }
        if self.request_timeout_ms == 0 {
            return Err(LocalConfigError::ZeroRequestTimeout);
        }
        Ok(())
    }

    /// Construct and validate one explicit local configuration.
    pub fn try_new(base_url: String, model: String) -> (r: Result<Self, LocalConfigError>)
        ensures
            match LocalConfigModel::defaults(base_url@, model@).fault() {
                None => r matches Ok(config) && config@ == LocalConfigModel::defaults(
                    base_url@,
                    model@,
                ),
                Some(error) => r == Err::<Self, LocalConfigError>(error),
            },
    {
        let config = LocalConfig::new(base_url, model);
        match config.validate() {
            Ok(()) => Ok(config),
            Err(error) => Err(error),
        }
    }
}

/// A tool in the wire form.
pub open spec fn tool_form(tool: DefinitionModel) -> Json {
    Json::Object(
        map![
            "type"@ => Json::String("function"@),
            "function"@ => Json::Object(
                map![
                    "name"@ => Json::String(tool.name),
                    "description"@ => Json::String(tool.description),
                    "parameters"@ => tool.schema,
                ],
            ),
        ],
    )
}

/// Tools in the wire form.
pub open spec fn tool_forms(tools: Seq<DefinitionModel>) -> Seq<Json> {
    tools.map_values(|tool: DefinitionModel| tool_form(tool))
}

/// Tools of a request in the wire form.
pub(crate) fn make_tools(tools: &Vec<ToolDefinition>) -> (r: Vec<JsonValue>)
    ensures
        crate::model::views(r@) == tool_forms(crate::model::views(tools@)),
{
    let ghost all = crate::model::views(tools@);
    let mut out: Vec<JsonValue> = Vec::new();
    let mut i: usize = 0;
    assert(crate::model::views(out@) =~= tool_forms(all.take(0)));
    while i < tools.len()
        invariant
            i <= tools@.len(),
            all == crate::model::views(tools@),
            crate::model::views(out@) == tool_forms(all.take(i as int)),
        decreases tools.len() - i,
    {
        let tool = &tools[i];
        let function = JsonObject::new().with("name", JsonValue::text(tool.name.as_str())).with(
            "description",
            JsonValue::text(tool.description.as_str()),
        ).with("parameters", tool.schema.duplicate());
        let form = JsonValue::object(
            JsonObject::new().with("type", JsonValue::text("function")).with(
                "function",
                JsonValue::object(function),
            ),
        );
        out.push(form);
        i = i + 1;
        proof {
            assert(all[i - 1] == tool@);
            assert(crate::model::views(out@) =~= tool_forms(all.take(i as int)));
        }
    }
    assert(all.take(i as int) =~= all);
    out
}

/// The system instructions as a message.
pub open spec fn system_form(prompt: Seq<char>) -> Json {
    Json::Object(map!["role"@ => Json::String("system"@), "content"@ => Json::String(prompt)])
}

/// The system instructions as a message.
pub(crate) fn make_system(prompt: &str) -> (r: JsonValue)
    ensures
        r@ == system_form(prompt@),
{
    JsonValue::object(
        JsonObject::new().with("role", JsonValue::text("system")).with(
            "content",
            JsonValue::text(prompt),
        ),
    )
}

/// The number that a decimal text writes, or `null` for a value that is not finite.
pub open spec fn sampling_form(value: Option<Seq<char>>) -> Json {
    match value {
        Some(text) => Json::Number(NumberModel::Float(text)),
        None => Json::Null,
    }
}

fn make_sampling(value: &Option<String>) -> (r: JsonValue)
    ensures
        r@ == sampling_form(crate::model::opt_view(*value)),
{
    match value {
        Some(text) => JsonValue::decimal(text.as_str()),
        None => JsonValue::null(),
    }
}

/// The payload of a request whose conversation was read.
pub open spec fn payload_form(
    config: LocalConfigModel,
    request: RequestModel,
    messages: Seq<Json>,
) -> Json {
    Json::Object(
        map![
            "model"@ => Json::String(config.model),
            "messages"@ => Json::Array(seq![system_form(request.system_prompt)] + messages),
            "temperature"@ => sampling_form(config.temperature),
            "top_p"@ => sampling_form(config.top_p),
            "min_p"@ => sampling_form(config.min_p),
            "max_tokens"@ => Json::Number(NumberModel::Int(config.max_tokens as int)),
            "stream"@ => Json::Bool(false),
            "chat_template_kwargs"@ => Json::Object(
                map![
                    "enable_thinking"@ => Json::Bool(
                        config.enable_thinking && request.thinking_level != ThinkingLevel::Off,
                    ),
                ],
            ),
            "tools"@ => Json::Array(tool_forms(request.tools)),
        ],
    )
}

/// The payload of a request, or why it cannot be sent.
pub open spec fn payload_of(config: LocalConfigModel, request: RequestModel) -> Result<
    Json,
    Seq<char>,
> {
    match serde_from_str(trim_end(trim_start(request.context))) {
        Err(_) => Err("local context was not valid JSON"@),
        Ok(Json::Array(messages)) => Ok(payload_form(config, request, messages)),
        Ok(_) => Err("local context was not a JSON message array"@),
    }
}

/// The payload of a request whose conversation was read.
pub fn build_payload(config: &LocalConfig, request: &ModelRequest, context: &JsonValue) -> (r:
    Result<JsonValue, String>)
    ensures
        match context@ {
            Json::Array(messages) => r matches Ok(payload) && payload@ == payload_form(
                config@,
                request@,
                messages,
            ),
            _ => r matches Err(e) && e@ == "local context was not a JSON message array"@,
        },
{
    let read = match context.as_array() {
        None => {
            return Err("local context was not a JSON message array".to_owned());
        },
        Some(messages) => messages,
    };
    let mut messages: Vec<JsonValue> = Vec::new();
    messages.push(make_system(request.system_prompt.as_str()));
    let mut rest = duplicate_all(read);
    messages.append(&mut rest);
    proof {
        assert(crate::model::views(messages@) =~= seq![system_form(request@.system_prompt)]
            + crate::model::views(read@));
    }
    let thinking = config.enable_thinking && request.thinking_level != ThinkingLevel::Off;
    let kwargs = JsonObject::new().with("enable_thinking", JsonValue::flag(thinking));
    Ok(
        JsonValue::object(
            JsonObject::new().with("model", JsonValue::text(config.model.as_str())).with(
                "messages",
                JsonValue::array(messages),
            ).with("temperature", make_sampling(&config.temperature)).with(
                "top_p",
                make_sampling(&config.top_p),
            ).with("min_p", make_sampling(&config.min_p)).with(
                "max_tokens",
                JsonValue::unsigned(config.max_tokens),
            ).with("stream", JsonValue::flag(false)).with(
                "chat_template_kwargs",
                JsonValue::object(kwargs),
            ).with("tools", JsonValue::array(make_tools(&request.tools))),
        ),
    )
}

/// The serialized payload of a request.
pub fn local_payload(config: &LocalConfig, request: &ModelRequest) -> (r: Result<String, String>)
    ensures
        match payload_of(config@, request@) {
            Ok(payload) => r matches Ok(text) && text@ == serde_to_string(payload),
            Err(error) => r matches Err(e) && e@ == error,
        },
{
    let context = match JsonValue::parse(trim(request.context.as_str()).as_str()) {
        Err(_) => {
            return Err("local context was not valid JSON".to_owned());
        },
        Ok(context) => context,
    };
    match build_payload(config, request, &context) {
        Ok(payload) => Ok(payload.to_json_string()),
        Err(error) => Err(error),
    }
}

/// A part of a response that was read, or its diagnostic.
pub type Read<T> = Result<T, Seq<char>>;

/// The members of a value that has to be an object.
pub open spec fn object_of(value: Json, description: Seq<char>) -> Read<Map<Seq<char>, Json>> {
    match value {
        Json::Object(object) => Ok(object),
        _ => Err(description + " was not a JSON object"@),
    }
}

/// The members of a member that has to be an object.
pub open spec fn object_member(value: Json, name: Seq<char>) -> Read<Map<Seq<char>, Json>> {
    match object_of(value, "local JSON value"@) {
        Err(error) => Err(error),
        Ok(object) => match member(object, name) {
            None => Err("local response omitted "@ + debug_quoted(name)),
            Some(inner) => object_of(inner, name),
        },
    }
}

/// The items of a member that has to be an array.
pub open spec fn array_member(value: Json, name: Seq<char>) -> Read<Seq<Json>> {
    match object_of(value, "local JSON value"@) {
        Err(error) => Err(error),
        Ok(object) => match member(object, name) {
            None => Err("local response omitted "@ + debug_quoted(name)),
            Some(Json::Array(items)) => Ok(items),
            Some(_) => Err(
                "local response field "@ + debug_quoted(name) + " was not an array"@,
            ),
        },
    }
}

/// The text of a value that may be absent or `null`.
pub open spec fn optional_text(value: Option<Json>) -> Read<Option<Seq<char>>> {
    match value {
        None => Ok(None),
        Some(Json::Null) => Ok(None),
        Some(Json::String(text)) => Ok(Some(text)),
        Some(_) => Err("local response field was not a string"@),
    }
}

/// The text of a value that has to be there.
pub open spec fn required_text(value: Option<Json>, description: Seq<char>) -> Read<Seq<char>> {
    match optional_text(value) {
        Err(error) => Err(error),
        Ok(Some(text)) if text.len() > 0 => Ok(text),
        Ok(_) => Err(description + " was missing or empty"@),
    }
}

/// The items of a value that may be absent or `null`.
pub open spec fn optional_items(value: Option<Json>) -> Read<Option<Seq<Json>>> {
    match value {
        None => Ok(None),
        Some(Json::Null) => Ok(None),
        Some(Json::Array(items)) => Ok(Some(items)),
        Some(_) => Err("local tool_calls was not an array"@),
    }
}

/// A token count of a usage report.
pub open spec fn count_member(value: Json, name: Seq<char>) -> Read<Option<u64>> {
    match object_of(value, "local usage"@) {
        Err(error) => Err(error),
        Ok(object) => match member(object, name) {
            None => Ok(None),
            Some(Json::Null) => Ok(None),
            Some(number) => match number.natural() {
                Some(n) => Ok(Some(n)),
                None => Err(
                    "local usage field "@ + debug_quoted(name)
                        + " was not a non-negative integer"@,
                ),
            },
        },
    }
}

fn as_object<'a>(value: &'a JsonValue, description: &str) -> (r: Result<&'a JsonObject, String>)
    ensures
        match r {
            Ok(object) => object_of(value@, description@) == Ok::<_, Seq<char>>(object@),
            Err(error) => object_of(value@, description@) == Err::<
                Map<Seq<char>, Json>,
                Seq<char>,
            >(error@),
        },
{
    match value.as_object() {
        Some(object) => Ok(object),
        None => Err(joined(description, " was not a JSON object")),
    }
}

fn omitted(name: &str) -> (r: String)
    ensures
        r@ == "local response omitted "@ + debug_quoted(name@),
{
    joined("local response omitted ", quoted(name).as_str())
}

fn object_field<'a>(value: &'a JsonValue, name: &str) -> (r: Result<&'a JsonObject, String>)
    ensures
        match r {
            Ok(object) => object_member(value@, name@) == Ok::<_, Seq<char>>(object@),
            Err(error) => object_member(value@, name@) == Err::<Map<Seq<char>, Json>, Seq<char>>(
                error@,
            ),
        },
{
    match as_object(value, "local JSON value") {
        Err(error) => Err(error),
        Ok(object) => match object.get(name) {
            None => Err(omitted(name)),
            Some(inner) => as_object(inner, name),
        },
    }
}

fn array_field<'a>(value: &'a JsonValue, name: &str) -> (r: Result<&'a Vec<JsonValue>, String>)
    ensures
        match r {
            Ok(items) => array_member(value@, name@) == Ok::<_, Seq<char>>(
                crate::model::views(items@),
            ),
            Err(error) => array_member(value@, name@) == Err::<Seq<Json>, Seq<char>>(error@),
        },
{
    match as_object(value, "local JSON value") {
        Err(error) => Err(error),
        Ok(object) => match object.get(name) {
            None => Err(omitted(name)),
            Some(inner) => match inner.as_array() {
                Some(items) => Ok(items),
                None => {
                    let mut error = joined("local response field ", quoted(name).as_str());
                    error.push_str(" was not an array");
                    Err(error)
                },
            },
        },
    }
}

/// The model of an optional reference.
pub open spec fn seen(value: Option<&JsonValue>) -> Option<Json> {
    match value {
        Some(value) => Some(value@),
        None => None,
    }
}

fn optional_array<'a>(value: Option<&'a JsonValue>) -> (r: Result<
    Option<&'a Vec<JsonValue>>,
    String,
>)
    ensures
        match r {
            Ok(Some(items)) => optional_items(seen(value)) == Ok::<_, Seq<char>>(
                Some(crate::model::views(items@)),
            ),
            Ok(None) => optional_items(seen(value)) == Ok::<Option<Seq<Json>>, Seq<char>>(None),
            Err(error) => optional_items(seen(value)) == Err::<Option<Seq<Json>>, Seq<char>>(
                error@,
            ),
        },
{
    broadcast use crate::json::lemma_value_shape;

    match value {
        None => Ok(None),
        Some(JsonValue::Null) => Ok(None),
        Some(JsonValue::Array(items)) => Ok(Some(items)),
        Some(_) => Err("local tool_calls was not an array".to_owned()),
    }
}

fn optional_string<'a>(value: Option<&'a JsonValue>) -> (r: Result<Option<&'a str>, String>)
    ensures
        match r {
            Ok(Some(text)) => optional_text(seen(value)) == Ok::<_, Seq<char>>(Some(text@)),
            Ok(None) => optional_text(seen(value)) == Ok::<Option<Seq<char>>, Seq<char>>(None),
            Err(error) => optional_text(seen(value)) == Err::<Option<Seq<char>>, Seq<char>>(
                error@,
            ),
        },
{
    broadcast use crate::json::lemma_value_shape;

    match value {
        None => Ok(None),
        Some(JsonValue::Null) => Ok(None),
        Some(JsonValue::String(text)) => Ok(Some(text.as_str())),
        Some(_) => Err("local response field was not a string".to_owned()),
    }
}

fn required_string<'a>(value: Option<&'a JsonValue>, description: &str) -> (r: Result<
    &'a str,
    String,
>)
    ensures
        match r {
            Ok(text) => required_text(seen(value), description@) == Ok::<Seq<char>, Seq<char>>(
                text@,
            ),
            Err(error) => required_text(seen(value), description@) == Err::<Seq<char>, Seq<char>>(
                error@,
            ),
        },
{
    match optional_string(value) {
        Err(error) => Err(error),
        Ok(found) => {
            if let Some(text) = found {
                if !text.is_empty() {
                    return Ok(text);
                }
            }
            Err(joined(description, " was missing or empty"))
        },
    }
}

fn number_field(value: &JsonValue, name: &str) -> (r: Result<Option<u64>, String>)
    ensures
        match r {
            Ok(count) => count_member(value@, name@) == Ok::<_, Seq<char>>(count),
            Err(error) => count_member(value@, name@) == Err::<Option<u64>, Seq<char>>(error@),
        },
{
    broadcast use crate::json::lemma_value_shape;

    let object = match as_object(value, "local usage") {
        Err(error) => return Err(error),
        Ok(object) => object,
    };
    match object.get(name) {
        None => Ok(None),
        Some(JsonValue::Null) => Ok(None),
        Some(number) => match number.as_u64() {
            Some(n) => Ok(Some(n)),
            None => {
                let mut error = joined("local usage field ", quoted(name).as_str());
                error.push_str(" was not a non-negative integer");
                Err(error)
            },
        },
    }
}

/// The token counts of a response.
pub open spec fn usage_of(value: Option<Json>) -> Read<UsageModel> {
    match value {
        None => Ok(UsageModel::unreported()),
        Some(value) => {
            let cached = match value.get("prompt_tokens_details"@) {
                None => Ok(None),
                Some(Json::Null) => Ok(None),
                Some(details) => count_member(details, "cached_tokens"@),
            };
            match cached {
                Err(error) => Err(error),
                Ok(cache_read_tokens) => match count_member(value, "prompt_tokens"@) {
                    Err(error) => Err(error),
                    Ok(input_tokens) => match count_member(value, "completion_tokens"@) {
                        Err(error) => Err(error),
                        Ok(output_tokens) => Ok(
                            UsageModel {
                                input_tokens,
                                output_tokens,
                                cache_read_tokens,
                                ..UsageModel::unreported()
                            },
                        ),
                    },
                },
            }
        },
    }
}

fn parse_usage(value: Option<&JsonValue>) -> (r: Result<Usage, String>)
    ensures
        match r {
            Ok(usage) => usage_of(seen(value)) == Ok::<UsageModel, Seq<char>>(usage@),
            Err(error) => usage_of(seen(value)) == Err::<UsageModel, Seq<char>>(error@),
        },
{
    broadcast use crate::json::lemma_value_shape;

    let value = match value {
        None => {
            return Ok(Usage::default());
        },
        Some(value) => value,
    };
    let cached = match value.get("prompt_tokens_details") {
        None => Ok(None),
        Some(JsonValue::Null) => Ok(None),
        Some(details) => number_field(details, "cached_tokens"),
    };
    let cache_read_tokens = match cached {
        Err(error) => return Err(error),
        Ok(count) => count,
    };
    let input_tokens = match number_field(value, "prompt_tokens") {
        Err(error) => return Err(error),
        Ok(count) => count,
    };
    let output_tokens = match number_field(value, "completion_tokens") {
        Err(error) => return Err(error),
        Ok(count) => count,
    };
    let mut usage = Usage::default();
    usage.input_tokens = input_tokens;
    usage.output_tokens = output_tokens;
    usage.cache_read_tokens = cache_read_tokens;
    Ok(usage)
}

/// The identifier of a call: its own, or one made from its place.
pub open spec fn call_id(own: Option<Seq<char>>, prefix: Seq<char>, index: nat) -> Seq<char> {
    match own {
        Some(id) if id.len() > 0 => id,
        _ => prefix + digits(index),
    }
}

/// One requested call of a response.
pub open spec fn read_call(call: Json, index: nat) -> Read<CallModel> {
    match object_of(call, "local tool call"@) {
        Err(error) => Err(error),
        Ok(object) => match optional_text(member(object, "id"@)) {
            Err(error) => Err(error),
            Ok(own) => match object_member(call, "function"@) {
                Err(error) => Err(error),
                Ok(function) => match required_text(
                    member(function, "name"@),
                    "local tool call name"@,
                ) {
                    Err(error) => Err(error),
                    Ok(name) => match required_text(
                        member(function, "arguments"@),
                        "local serialized tool arguments"@,
                    ) {
                        Err(error) => Err(error),
                        Ok(arguments) => Ok(
                            CallModel { id: call_id(own, "local-call-"@, index), name, arguments },
                        ),
                    },
                },
            },
        },
    }
}

/// The events of the requested calls of a response, in order.
pub open spec fn read_calls(calls: Seq<Json>) -> Read<Seq<StreamEventModel>>
    decreases calls.len(),
{
    if calls.len() == 0 {
        Ok(Seq::empty())
    } else {
        match read_calls(calls.drop_last()) {
            Err(error) => Err(error),
            Ok(before) => match read_call(calls.last(), (calls.len() - 1) as nat) {
                Err(error) => Err(error),
                Ok(call) => Ok(before.push(StreamEventModel::ToolCall(call))),
            },
        }
    }
}

proof fn lemma_calls_prefix(calls: Seq<Json>, k: int)
    requires
        0 <= k <= calls.len(),
        read_calls(calls.take(k)) is Err,
    ensures
        read_calls(calls) == read_calls(calls.take(k)),
    decreases calls.len() - k,
{
    if k == calls.len() {
        assert(calls.take(k) =~= calls);
    } else {
        assert(calls.take(k + 1).drop_last() =~= calls.take(k));
        lemma_calls_prefix(calls, k + 1);
    }
}

fn parse_call(call: &JsonValue, index: usize) -> (r: Result<AssistantToolCall, String>)
    ensures
        match r {
            Ok(read) => read_call(call@, index as nat) == Ok::<CallModel, Seq<char>>(read@),
            Err(error) => read_call(call@, index as nat) == Err::<CallModel, Seq<char>>(error@),
        },
{
    let object = match as_object(call, "local tool call") {
        Err(error) => return Err(error),
        Ok(object) => object,
    };
    let own = match optional_string(object.get("id")) {
        Err(error) => return Err(error),
        Ok(own) => own,
    };
    let function = match object_field(call, "function") {
        Err(error) => return Err(error),
        Ok(function) => function,
    };
    let name = match required_string(function.get("name"), "local tool call name") {
        Err(error) => return Err(error),
        Ok(name) => name,
    };
    let arguments = match required_string(
        function.get("arguments"),
        "local serialized tool arguments",
    ) {
        Err(error) => return Err(error),
        Ok(arguments) => arguments,
    };
    let id = identify(own, "local-call-", index);
    Ok(
        AssistantToolCall {
            id,
            name: name.to_owned(),
            arguments: SerializedJson::new(arguments.to_owned()),
        },
    )
}

/// The identifier of a call: its own, or one made from its place.
pub(crate) fn identify(own: Option<&str>, prefix: &str, index: usize) -> (r: ToolCallId)
    ensures
        r@ == call_id(
            match own {
                Some(id) => Some(id@),
                None => None,
            },
            prefix@,
            index as nat,
        ),
{
    if let Some(text) = own {
        if let Ok(id) = ToolCallId::new(text.to_owned()) {
            return id;
        }
    }
    let mut text = prefix.to_owned();
    push_number(&mut text, index as u64);
    assert(digits(index as nat).len() > 0);
    ToolCallId::new(text).unwrap()
}

/// Why a response stopped.
pub open spec fn reason_of(finish: Option<Seq<char>>, has_calls: bool) -> StopReason {
    if finish == Some("length"@) {
        StopReason::Length
    } else if has_calls {
        StopReason::ToolUse
    } else {
        StopReason::EndTurn
    }
}

/// The diagnostic of a refused request.
pub open spec fn refusal_text(error: Json) -> Seq<char> {
    match error.get("message"@) {
        Some(Json::String(text)) => text,
        _ => "local server rejected the request"@,
    }
}

fn error_message(error: &JsonValue) -> (r: String)
    ensures
        r@ == refusal_text(error@),
{
    if let Some(message) = error.get("message") {
        if let Some(text) = message.as_str() {
            return text.to_owned();
        }
    }
    "local server rejected the request".to_owned()
}

/// The text that begins the events of a response.
pub open spec fn text_events(text: Option<Seq<char>>) -> Seq<StreamEventModel> {
    match text {
        Some(text) if text.len() > 0 => seq![StreamEventModel::TextDelta(text)],
        _ => Seq::empty(),
    }
}

/// The events of a completion choice.
pub open spec fn choice_events(choice: Json) -> Read<Seq<StreamEventModel>> {
    match object_member(choice, "message"@) {
        Err(error) => Err(error),
        Ok(message) => match optional_text(member(message, "content"@)) {
            Err(error) => Err(error),
            Ok(text) => match optional_items(member(message, "tool_calls"@)) {
                Err(error) => Err(error),
                Ok(found) => {
                    let calls = match found {
                        Some(calls) => calls,
                        None => Seq::empty(),
                    };
                    match read_calls(calls) {
                        Err(error) => Err(error),
                        Ok(events) => match object_of(choice, "local choice"@) {
                            Err(error) => Err(error),
                            Ok(object) => match optional_text(member(object, "finish_reason"@)) {
                                Err(error) => Err(error),
                                Ok(finish) => Ok(
                                    (text_events(text) + events).push(
                                        StreamEventModel::End(reason_of(finish, calls.len() > 0)),
                                    ),
                                ),
                            },
                        },
                    }
                },
            },
        },
    }
}

/// What a response that was read gives.
pub open spec fn completion_of(response: Json, status: u16) -> Read<
    (Seq<StreamEventModel>, UsageModel),
> {
    match response.get("error"@) {
        Some(error) => Err(
            "local server rejected the request with HTTP "@ + digits(status as nat) + ": "@
                + refusal_text(error),
        ),
        None => if !(200 <= status < 300) {
            Err(
                "local server returned HTTP "@ + digits(status as nat)
                    + " without a completion"@,
            )
        } else {
            match array_member(response, "choices"@) {
                Err(error) => Err(error),
                Ok(choices) => if choices.len() == 0 {
                    Err("local response did not contain a completion choice"@)
                } else {
                    match choice_events(choices[0]) {
                        Err(error) => Err(error),
                        Ok(events) => match usage_of(response.get("usage"@)) {
                            Err(error) => Err(error),
                            Ok(usage) => Ok((events, usage)),
                        },
                    }
                },
            }
        },
    }
}

fn parse_choice(choice: &JsonValue) -> (r: Result<Vec<ModelStreamEvent>, String>)
    ensures
        match r {
            Ok(events) => choice_events(choice@) == Ok::<_, Seq<char>>(
                crate::model::views(events@),
            ) && events@.len() > 0,
            Err(error) => choice_events(choice@) == Err::<Seq<StreamEventModel>, Seq<char>>(
                error@,
            ),
        },
{
    let message = match object_field(choice, "message") {
        Err(error) => return Err(error),
        Ok(message) => message,
    };
    let mut events: Vec<ModelStreamEvent> = Vec::new();
    let text = match optional_string(message.get("content")) {
        Err(error) => return Err(error),
        Ok(text) => text,
    };
    let ghost head = text_events(
        match text {
            Some(text) => Some(text@),
            None => None,
        },
    );
    if let Some(text) = text {
        if !text.is_empty() {
            events.push(ModelStreamEvent::TextDelta(text.to_owned()));
        }
    }
    assert(crate::model::views(events@) =~= head);
    let calls = match optional_array(message.get("tool_calls")) {
        Err(error) => return Err(error),
        Ok(calls) => calls,
    };
    let mut has_calls = false;
    let ghost all = match calls {
        Some(calls) => crate::model::views(calls@),
        None => Seq::empty(),
    };
    let ghost mut made: Seq<StreamEventModel> = Seq::empty();
    assert(head + made =~= head);
    if let Some(calls) = calls {
        let mut i: usize = 0;
        while i < calls.len()
            invariant
                i <= calls@.len(),
                all == crate::model::views(calls@),
                read_calls(all.take(i as int)) == Ok::<Seq<StreamEventModel>, Seq<char>>(made),
                crate::model::views(events@) == head + made,
                has_calls == (i > 0),
                read_calls(all) is Err ==> choice_events(choice@) == Err::<
                    Seq<StreamEventModel>,
                    Seq<char>,
                >(read_calls(all)->Err_0),
            decreases calls.len() - i,
        {
            proof {
                assert(all.take(i + 1).drop_last() =~= all.take(i as int));
                assert(all.take(i + 1).last() == calls@[i as int]@);
            }
            match parse_call(&calls[i], i) {
                Err(error) => {
                    proof {
                        lemma_calls_prefix(all, i + 1);
                    }
                    return Err(error);
                },
                Ok(call) => {
                    events.push(ModelStreamEvent::ToolCall(call));
                    proof {
                        let longer = made.push(StreamEventModel::ToolCall(call@));
                        assert(head + longer =~= (head + made).push(
                            StreamEventModel::ToolCall(call@),
                        ));
                        made = longer;
                    }
                },
            }
            has_calls = true;
            i = i + 1;
        }
        assert(all.take(i as int) =~= all);
    }
    let object = match as_object(choice, "local choice") {
        Err(error) => return Err(error),
        Ok(object) => object,
    };
    let finish = match optional_string(object.get("finish_reason")) {
        Err(error) => return Err(error),
        Ok(finish) => finish,
    };
    let reason = stop_reason(finish, has_calls);
    events.push(ModelStreamEvent::End(reason));
    Ok(events)
}

/// Why a response stopped.
pub(crate) fn stop_reason(finish: Option<&str>, has_calls: bool) -> (r: StopReason)
    ensures
        r == reason_of(
            match finish {
                Some(text) => Some(text@),
                None => None,
            },
            has_calls,
        ),
{
    if let Some(text) = finish {
        if same(text, "length") {
            return StopReason::Length;
        }
    }
    if has_calls {
        StopReason::ToolUse
    } else {
        StopReason::EndTurn
    }
}

/// Read a completion.
pub fn parse_completion(response: &JsonValue, http_status: u16) -> (r: Result<
    (Vec<ModelStreamEvent>, Usage),
    String,
>)
    ensures
        match r {
            Ok((events, usage)) => completion_of(response@, http_status) == Ok::<_, Seq<char>>(
                (crate::model::views(events@), usage@),
            ) && events@.len() > 0,
            Err(error) => completion_of(response@, http_status) == Err::<
                (Seq<StreamEventModel>, UsageModel),
                Seq<char>,
            >(error@),
        },
{
    if let Some(error) = response.get("error") {
        let mut text = "local server rejected the request with HTTP ".to_owned();
        push_number(&mut text, http_status as u64);
        text.push_str(": ");
        text.push_str(error_message(error).as_str());
        return Err(text);
    }
    if http_status < 200 || http_status >= 300 {
        let mut text = "local server returned HTTP ".to_owned();
        push_number(&mut text, http_status as u64);
        text.push_str(" without a completion");
        return Err(text);
    }
    let choices = match array_field(response, "choices") {
        Err(error) => return Err(error),
        Ok(choices) => choices,
    };
    if choices.len() == 0 {
        return Err("local response did not contain a completion choice".to_owned());
    }
    assert(crate::model::views(choices@)[0] == choices@[0]@);
    let events = match parse_choice(&choices[0]) {
        Err(error) => return Err(error),
        Ok(events) => events,
    };
    match parse_usage(response.get("usage")) {
        Err(error) => Err(error),
        Ok(usage) => Ok((events, usage)),
    }
}

/// What the bytes of a response give.
pub open spec fn response_of(bytes: Seq<u8>, status: u16) -> Read<
    (Seq<StreamEventModel>, UsageModel),
> {
    match serde_from_slice(bytes) {
        None => Err("local response was not valid JSON"@),
        Some(response) => completion_of(response, status),
    }
}

/// Read the response of the local server.
pub fn parse_local_response(bytes: &[u8], http_status: u16) -> (r: Result<
    (Vec<ModelStreamEvent>, Usage),
    String,
>)
    ensures
        match r {
            Ok((events, usage)) => response_of(bytes@, http_status) == Ok::<_, Seq<char>>(
                (crate::model::views(events@), usage@),
            ) && events@.len() > 0,
            Err(error) => response_of(bytes@, http_status) == Err::<
                (Seq<StreamEventModel>, UsageModel),
                Seq<char>,
            >(error@),
        },
{
    match read_bytes(bytes) {
        None => Err("local response was not valid JSON".to_owned()),
        Some(response) => parse_completion(&response, http_status),
    }
}

/// The place after the last line feed of a text, if it holds one.
pub open spec fn last_line_start(s: Seq<char>) -> Option<int>
    decreases s.len(),
{
    if s.len() == 0 {
        None
    } else if s.last() == '\n' {
        Some(s.len() as int)
    } else {
        last_line_start(s.drop_last())
    }
}

/// What a transport that appends the status on a line of its own delivered.
pub open spec fn with_status(bytes: Seq<u8>) -> Read<(Seq<char>, u16)> {
    if !valid_utf8(bytes) {
        Err("local transport returned non-UTF-8 output"@)
    } else {
        let output = decode_utf8(bytes);
        match last_line_start(output) {
            None => Err("local transport did not report an HTTP status"@),
            Some(at) => match number_of(trim_end(trim_start(output.skip(at)))) {
                Some(status) if status <= u16::MAX => Ok((output.take(at - 1), status as u16)),
                _ => Err("local transport reported an invalid HTTP status"@),
            },
        }
    }
}

/// Part a body from the status that the transport appended.
pub fn split_curl_status(bytes: &[u8]) -> (r: Result<(String, u16), String>)
    ensures
        match r {
            Ok((body, status)) => with_status(bytes@) == Ok::<_, Seq<char>>((body@, status)),
            Err(error) => with_status(bytes@) == Err::<(Seq<char>, u16), Seq<char>>(error@),
        },
{
    let output = match decode(bytes) {
        None => {
            return Err("local transport returned non-UTF-8 output".to_owned());
        },
        Some(output) => output,
    };
    let chars = chars_of(output);
    let mut at: usize = chars.len();
    assert(chars@.take(at as int) =~= chars@);
    while at > 0 && chars[at - 1] != '\n'
        invariant
            at <= chars@.len(),
            last_line_start(chars@) == last_line_start(chars@.take(at as int)),
        decreases at,
    {
        assert(chars@.take(at as int).drop_last() =~= chars@.take(at - 1));
        at = at - 1;
    }
    if at == 0 {
        return Err("local transport did not report an HTTP status".to_owned());
    }
    let status = text_of(&chars, at, chars.len());
    assert(status@ =~= output@.skip(at as int));
    match parse_number(trim(status.as_str()).as_str(), 65535) {
        None => Err("local transport reported an invalid HTTP status".to_owned()),
        Some(status) => {
            let body = text_of(&chars, 0, at - 1);
            assert(body@ =~= output@.take(at - 1));
            Ok((body, status as u16))
        },
    }
}

/// A URL without the slashes that end it.
pub open spec fn without_slashes(url: Seq<char>) -> Seq<char>
    decreases url.len(),
{
    if url.len() > 0 && url.last() == '/' {
        without_slashes(url.drop_last())
    } else {
        url
    }
}

/// A finite-response local OpenAI-compatible adapter.
#[derive(Debug)]
pub struct LocalProvider {
    config: LocalConfig,
}

impl View for LocalProvider {
    type V = LocalConfigModel;

    closed spec fn view(&self) -> LocalConfigModel {
        self.config@
    }
}

/// Why a request is for another model.
pub open spec fn mismatch(config: LocalConfigModel, request: RequestModel) -> Option<Seq<char>> {
    match request.model {
        None => Some("local request omitted its model descriptor"@),
        Some(model) => if model.provider == "local"@ && model.model == config.model {
            None
        } else {
            Some(
                "local provider received model "@ + model.provider + "/"@ + model.model
                    + " but serves local/"@ + config.model,
            )
        },
    }
}

/// The stream of a cancelled request.
pub open spec fn cancelled_events() -> Seq<StreamEventModel> {
    seq![StreamEventModel::End(StopReason::Cancelled)]
}

/// The stream of a cancelled request.
pub fn cancelled_stream() -> (r: ModelStream)
    ensures
        crate::model::views(r.events@) == cancelled_events(),
{
    let mut events: Vec<ModelStreamEvent> = Vec::new();
    events.push(ModelStreamEvent::End(StopReason::Cancelled));
    assert(crate::model::views(events@) =~= cancelled_events());
    ModelStream { events }
}

/// What a delivered request gives.
pub open spec fn delivery_of(outcome: Result<Response, Failure>) -> Read<
    (Seq<StreamEventModel>, UsageModel),
> {
    match outcome {
        Ok(response) => response_of(response.body@, response.status_code),
        Err(failure) => if failure.message@ == "HTTP request cancelled"@ {
            Err("local transport cancelled"@)
        } else {
            Err("local transport failed before a provider response: "@ + failure.message@)
        },
    }
}

impl LocalProvider {
    /// Construct a provider from already validated explicit configuration.
    pub fn new(config: LocalConfig) -> (r: Self)
        ensures
            r@ == config@,
    {
        LocalProvider { config }
    }

    /// The configuration.
    pub fn config(&self) -> (r: &LocalConfig)
        ensures
            r@ == self@,
    {
        &self.config
    }

    /// Where requests go.
    pub fn endpoint(&self) -> (r: String)
        ensures
            r@ == without_slashes(self@.base_url) + "/chat/completions"@,
    {
        let chars = chars_of(self.config.base_url.as_str());
        let mut end: usize = chars.len();
        assert(chars@.take(end as int) =~= chars@);
        while end > 0 && chars[end - 1] == '/'
            invariant
                end <= chars@.len(),
                without_slashes(chars@) == without_slashes(chars@.take(end as int)),
            decreases end,
        {
            assert(chars@.take(end as int).drop_last() =~= chars@.take(end - 1));
            end = end - 1;
        }
        let mut url = text_of(&chars, 0, end);
        assert(url@ =~= chars@.take(end as int));
        url.push_str("/chat/completions");
        url
    }

    /// The serialized payload of a request for the configured model.
    pub fn prepare(&self, request: &ModelRequest) -> (r: Result<String, String>)
        ensures
            match mismatch(self@, request@) {
                Some(error) => r matches Err(e) && e@ == error,
                None => match payload_of(self@, request@) {
                    Ok(payload) => r matches Ok(text) && text@ == serde_to_string(payload),
                    Err(error) => r matches Err(e) && e@ == error,
                },
            },
    {
        match &request.model {
            None => Err("local request omitted its model descriptor".to_owned()),
            Some(model) => {
                if !(same(model.provider.as_str(), "local") && same(
                    model.model.as_str(),
                    self.config.model.as_str(),
                )) {
                    let mut error = joined(
                        "local provider received model ",
                        model.provider.as_str(),
                    );
                    error.push_str("/");
                    error.push_str(model.model.as_str());
                    error.push_str(" but serves local/");
                    error.push_str(self.config.model.as_str());
                    return Err(error);
                }
                local_payload(&self.config, request)
            },
        }
    }

    /// The stream of what the transport made of a request.
    pub fn read_delivery(&self, outcome: Result<Response, Failure>, cancelled: bool) -> (r:
        ModelStream)
        ensures
            crate::model::views(r.events@) == if cancelled {
                cancelled_events()
            } else {
                match delivery_of(outcome) {
                    Ok(response) => response.0.drop_last().push(
                        StreamEventModel::Usage(response.1),
                    ).push(response.0.last()),
                    Err(message) => seq![StreamEventModel::Error { message }],
                }
            },
    {
        let outcome = match outcome {
            Ok(response) => parse_local_response(response.body.as_slice(), response.status_code),
            Err(failure) => if cancelled || same(
                failure.message.as_str(),
                "HTTP request cancelled",
            ) {
                Err("local transport cancelled".to_owned())
            } else {
                Err(
                    joined(
                        "local transport failed before a provider response: ",
                        failure.message.as_str(),
                    ),
                )
            },
        };
        self.response_stream(outcome, cancelled)
    }

    /// The stream of a settled request. Cancellation hides its outcome; otherwise the usage
    /// stands before the terminal event.
    pub fn response_stream(
        &self,
        outcome: Result<(Vec<ModelStreamEvent>, Usage), String>,
        cancelled: bool,
    ) -> (r: ModelStream)
        requires
            outcome matches Ok(response) ==> response.0@.len() > 0,
        ensures
            crate::model::views(r.events@) == if cancelled {
                cancelled_events()
            } else {
                match outcome {
                    Ok(response) => crate::model::views(response.0@).drop_last().push(
                        StreamEventModel::Usage(response.1@),
                    ).push(crate::model::views(response.0@).last()),
                    Err(message) => seq![StreamEventModel::Error { message: message@ }],
                }
            },
    {
        if cancelled {
            return cancelled_stream();
        }
        match outcome {
            Err(message) => {
                let mut events: Vec<ModelStreamEvent> = Vec::new();
                events.push(ModelStreamEvent::Error { message });
                assert(crate::model::views(events@)
                    =~= seq![StreamEventModel::Error { message: message@ }]);
                ModelStream { events }
            },
            Ok((mut events, usage)) => {
                let ghost all = crate::model::views(events@);
                if let Some(terminal) = events.pop() {
                    assert(crate::model::views(events@) =~= all.drop_last());
                    events.push(ModelStreamEvent::Usage(usage));
                    events.push(terminal);
                }
                ModelStream { events }
            },
        }
    }
}

/// A completion that was read ends with its only terminal event.
pub proof fn law_completion_ends_once(response: Json, status: u16)
    ensures
        completion_of(response, status) matches Ok((events, _)) ==> events.len() > 0
            && events.last() is End && forall|i: int|
            0 <= i < events.len() - 1 ==> !(#[trigger] events[i] is End),
{
    if let Ok((events, _)) = completion_of(response, status) {
        let choice = array_member(response, "choices"@)->Ok_0[0];
        let message = object_member(choice, "message"@)->Ok_0;
        let calls = match optional_items(member(message, "tool_calls"@))->Ok_0 {
            Some(calls) => calls,
            None => Seq::empty(),
        };
        lemma_calls_are_calls(calls);
        let made = read_calls(calls)->Ok_0;
        let head = text_events(optional_text(member(message, "content"@))->Ok_0);
        assert forall|i: int| 0 <= i < events.len() - 1 implies !(#[trigger] events[i] is End) by {
            if i < head.len() {
                assert(events[i] == head[i]);
            } else {
                assert(events[i] == made[i - head.len()]);
            }
        }
    }
}

proof fn lemma_calls_are_calls(calls: Seq<Json>)
    ensures
        read_calls(calls) matches Ok(events) ==> forall|i: int|
            0 <= i < events.len() ==> #[trigger] events[i] is ToolCall,
    decreases calls.len(),
{
    if calls.len() > 0 {
        lemma_calls_are_calls(calls.drop_last());
    }
}

} // verus!
