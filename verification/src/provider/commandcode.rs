//! Command Code NDJSON gateway adapter.
//!
//! The adapter accepts all authority explicitly: its API key, the gateway model, and the host
//! context the gateway includes in each request. It never discovers a working directory, date,
//! operating system, environment variable, or local credential file. Hosts convert their
//! transcript to the standard Chat Completions message array before it reaches this adapter.

use crate::json::{
    member, serde_from_str, serde_to_string, Json, JsonObject, JsonValue, NumberModel,
};
use crate::model::Duplicate;
use crate::scheduler::{ModelRequest, ModelStream, ModelStreamEvent, RequestModel, StreamEventModel};
use crate::state::{
    saturating_sum, AssistantToolCall, CallModel, SerializedJson, StopReason, ThinkingLevel,
    ToolCallId, Usage, UsageModel,
};
use crate::text::{
    blank, chars_of, debug_quoted, decode, digits, is_blank, joined, lines, lines_of, push_number,
    quoted, same, text_of, TextMap,
};
use crate::tool::{DefinitionModel, ToolDefinition};
use vstd::prelude::*;
use vstd::utf8::{decode_utf8, valid_utf8};

verus! {

broadcast use crate::model::group_views;

/// Where requests go.
pub const API_URL: &'static str = "https://api.commandcode.ai/alpha/generate";

/// The gateway version that the client announces.
pub const CLIENT_VERSION: &'static str = "1.24.0";

/// Error raised when explicit configuration violates an adapter invariant.
#[derive(Clone, Debug, Eq, PartialEq)]
pub enum CommandCodeConfigError {
    /// A required caller-supplied text value was empty.
    EmptyField(&'static str),
    /// The maximum output token cap was zero.
    ZeroMaxTokens,
    /// The temperature was not finite.
    NonFiniteTemperature,
    /// Command Code only serializes canonical UUID thread identifiers.
    InvalidThreadId,
}

impl CommandCodeConfigError {
    /// Diagnostic text of a failure.
    pub open spec fn spec_text(self) -> Seq<char> {
        match self {
            CommandCodeConfigError::EmptyField(field) => "Command Code "@ + field@
                + " must not be empty"@,
            CommandCodeConfigError::ZeroMaxTokens => {
                "Command Code max tokens must be greater than zero"@
            },
            CommandCodeConfigError::NonFiniteTemperature => {
                "Command Code temperature must be finite"@
            },
            CommandCodeConfigError::InvalidThreadId => {
                "Command Code thread ID must be a canonical UUID"@
            },
        }
    }

    /// Diagnostic text of this failure.
    pub fn text(&self) -> (r: String)
        ensures
            r@ == self.spec_text(),
    {
        match self {
            CommandCodeConfigError::EmptyField(field) => {
                let mut out = joined("Command Code ", field);
                out.push_str(" must not be empty");
                out
            },
            CommandCodeConfigError::ZeroMaxTokens => {
                "Command Code max tokens must be greater than zero".to_owned()
            },
            CommandCodeConfigError::NonFiniteTemperature => {
                "Command Code temperature must be finite".to_owned()
            },
            CommandCodeConfigError::InvalidThreadId => {
                "Command Code thread ID must be a canonical UUID".to_owned()
            },
        }
    }
}

/// Accept a value that is not blank.
fn nonempty(value: String, field: &'static str) -> (r: Result<String, CommandCodeConfigError>)
    ensures
        r is Ok <==> !is_blank(value@),
        r matches Ok(text) ==> text@ == value@,
        r matches Err(e) ==> e == CommandCodeConfigError::EmptyField(field),
{
    if blank(value.as_str()) {
        Err(CommandCodeConfigError::EmptyField(field))
    } else {
        Ok(value)
    }
}

/// Caller-provided host metadata included in a gateway request.
///
/// These values are explicit rather than discovered from the local process. A sandboxed host
/// can supply the virtual workspace and platform it has actually authorized.
#[derive(Clone, Debug, Eq, PartialEq)]
pub struct CommandCodeHostContext {
    working_directory: String,
    date: String,
    environment: String,
}

/// Model of a [`CommandCodeHostContext`].
#[verifier::ext_equal]
pub struct HostContextModel {
    pub working_directory: Seq<char>,
    pub date: Seq<char>,
    pub environment: Seq<char>,
}

impl View for CommandCodeHostContext {
    type V = HostContextModel;

    closed spec fn view(&self) -> HostContextModel {
        HostContextModel {
            working_directory: self.working_directory@,
            date: self.date@,
            environment: self.environment@,
        }
    }
}

impl CommandCodeHostContext {
    /// Construct host metadata after rejecting empty values.
    pub fn new(working_directory: String, date: String, environment: String) -> (r: Result<
        Self,
        CommandCodeConfigError,
    >)
        ensures
            if is_blank(working_directory@) {
                r == Err::<Self, _>(CommandCodeConfigError::EmptyField("working directory"))
            } else if is_blank(date@) {
                r == Err::<Self, _>(CommandCodeConfigError::EmptyField("date"))
            } else if is_blank(environment@) {
                r == Err::<Self, _>(CommandCodeConfigError::EmptyField("environment"))
            } else {
                r matches Ok(host) && host@ == (HostContextModel {
                    working_directory: working_directory@,
                    date: date@,
                    environment: environment@,
                })
            },
    {
        let working_directory = match nonempty(working_directory, "working directory") {
            Ok(text) => text,
            Err(error) => return Err(error),
        };
        let date = match nonempty(date, "date") {
            Ok(text) => text,
            Err(error) => return Err(error),
        };
        let environment = match nonempty(environment, "environment") {
            Ok(text) => text,
            Err(error) => return Err(error),
        };
        Ok(CommandCodeHostContext { working_directory, date, environment })
    }
}

/// Permission mode for one request.
#[derive(Clone, Copy, Debug, Eq, PartialEq, Structural)]
pub enum CommandCodePermissionMode {
    /// Let the gateway apply its standard permission behavior.
    Standard,
    /// Let the gateway auto-accept permitted operations.
    AutoAccept,
    /// Ask the gateway to plan instead of applying changes.
    Plan,
}

impl Default for CommandCodePermissionMode {
    fn default() -> (r: Self)
        ensures
            r == CommandCodePermissionMode::Standard,
    {
        CommandCodePermissionMode::Standard
    }
}

impl CommandCodePermissionMode {
    /// The wire name of a mode.
    pub open spec fn spec_name(self) -> Seq<char> {
        match self {
            CommandCodePermissionMode::Standard => "standard"@,
            CommandCodePermissionMode::AutoAccept => "auto-accept"@,
            CommandCodePermissionMode::Plan => "plan"@,
        }
    }

    fn as_str(self) -> (r: &'static str)
        ensures
            r@ == self.spec_name(),
    {
        match self {
            CommandCodePermissionMode::Standard => "standard",
            CommandCodePermissionMode::AutoAccept => "auto-accept",
            CommandCodePermissionMode::Plan => "plan",
        }
    }
}

/// Caller-owned configuration for [`CommandCodeProvider`].
///
/// The default is the gateway's `agent` mode and a 64,000 token cap. A temperature is held by
/// its decimal text. The configuration has no debug form that shows its key; see
/// [`CommandCodeConfig::redacted`].
pub struct CommandCodeConfig {
    api_key: String,
    model: String,
    host: CommandCodeHostContext,
    max_tokens: u64,
    permission_mode: CommandCodePermissionMode,
    thread_id: Option<String>,
    mode: String,
    temperature: Option<String>,
    zero_data_retention: bool,
    project_slug: Option<String>,
    taste_learning_enabled: bool,
}

/// Model of a [`CommandCodeConfig`].
#[verifier::ext_equal]
pub struct CommandCodeConfigModel {
    pub api_key: Seq<char>,
    pub model: Seq<char>,
    pub host: HostContextModel,
    pub max_tokens: u64,
    pub permission_mode: CommandCodePermissionMode,
    pub thread_id: Option<Seq<char>>,
    pub mode: Seq<char>,
    pub temperature: Option<Seq<char>>,
    pub zero_data_retention: bool,
    pub project_slug: Option<Seq<char>>,
    pub taste_learning_enabled: bool,
}

impl View for CommandCodeConfig {
    type V = CommandCodeConfigModel;

    closed spec fn view(&self) -> CommandCodeConfigModel {
        CommandCodeConfigModel {
            api_key: self.api_key@,
            model: self.model@,
            host: self.host@,
            max_tokens: self.max_tokens,
            permission_mode: self.permission_mode,
            thread_id: crate::model::opt_view(self.thread_id),
            mode: self.mode@,
            temperature: crate::model::opt_view(self.temperature),
            zero_data_retention: self.zero_data_retention,
            project_slug: crate::model::opt_view(self.project_slug),
            taste_learning_enabled: self.taste_learning_enabled,
        }
    }
}

/// A character of a hexadecimal number.
pub open spec fn is_hex(c: char) -> bool {
    '0' <= c <= '9' || 'a' <= c <= 'f' || 'A' <= c <= 'F'
}

/// Whether a text is a UUID in its canonical form: hexadecimal digits in groups of eight,
/// four, four, four and twelve.
pub open spec fn canonical_uuid(s: Seq<char>) -> bool {
    &&& s.len() == 36
    &&& forall|i: int|
        0 <= i < 36 ==> if i == 8 || i == 13 || i == 18 || i == 23 {
            (#[trigger] s[i]) == '-'
        } else {
            is_hex(s[i])
        }
}

fn is_canonical_uuid(value: &str) -> (r: bool)
    ensures
        r == canonical_uuid(value@),
{
    let chars = chars_of(value);
    if chars.len() != 36 {
        return false;
    }
    let mut i: usize = 0;
    while i < 36
        invariant
            chars@ == value@,
            chars@.len() == 36,
            i <= 36,
            forall|k: int|
                0 <= k < i ==> if k == 8 || k == 13 || k == 18 || k == 23 {
                    (#[trigger] chars@[k]) == '-'
                } else {
                    is_hex(chars@[k])
                },
        decreases 36 - i,
    {
        let c = chars[i];
        let fits = if i == 8 || i == 13 || i == 18 || i == 23 {
            c == '-'
        } else {
            ('0' <= c && c <= '9') || ('a' <= c && c <= 'f') || ('A' <= c && c <= 'F')
        };
        if !fits {
            assert(chars@[i as int] == c);
            return false;
        }
        i = i + 1;
    }
    true
}

impl CommandCodeConfig {
    /// Configure a model with explicit credentials and host metadata.
    pub fn new(api_key: String, model: String, host: CommandCodeHostContext) -> (r: Result<
        Self,
        CommandCodeConfigError,
    >)
        ensures
            if is_blank(api_key@) {
                r == Err::<Self, _>(CommandCodeConfigError::EmptyField("API key"))
            } else if is_blank(model@) {
                r == Err::<Self, _>(CommandCodeConfigError::EmptyField("model"))
            } else {
                r matches Ok(config) && config@ == (CommandCodeConfigModel {
                    api_key: api_key@,
                    model: model@,
                    host: host@,
                    max_tokens: 64_000,
                    permission_mode: CommandCodePermissionMode::Standard,
                    thread_id: None,
                    mode: "agent"@,
                    temperature: None,
                    zero_data_retention: false,
                    project_slug: None,
                    taste_learning_enabled: true,
                })
            },
    {
        let api_key = match nonempty(api_key, "API key") {
            Ok(text) => text,
            Err(error) => return Err(error),
        };
        let model = match nonempty(model, "model") {
            Ok(text) => text,
            Err(error) => return Err(error),
        };
        Ok(
            CommandCodeConfig {
                api_key,
                model,
                host,
                max_tokens: 64_000,
                permission_mode: CommandCodePermissionMode::Standard,
                thread_id: None,
                mode: "agent".to_owned(),
                temperature: None,
                zero_data_retention: false,
                project_slug: None,
                taste_learning_enabled: true,
            },
        )
    }

    /// The configured model identifier.
    pub fn model(&self) -> (r: &str)
        ensures
            r@ == self@.model,
    {
        self.model.as_str()
    }

    /// Replace the explicit maximum output-token cap.
    pub fn with_max_tokens(self, max_tokens: u64) -> (r: Result<Self, CommandCodeConfigError>)
        ensures
            if max_tokens == 0 {
                r == Err::<Self, _>(CommandCodeConfigError::ZeroMaxTokens)
            } else {
                r matches Ok(config) && config@ == (CommandCodeConfigModel { max_tokens, ..self@ })
            },
    {
        if max_tokens == 0 {
            return Err(CommandCodeConfigError::ZeroMaxTokens);
        }
        let mut config = self;
        config.max_tokens = max_tokens;
        assert(config@ =~= CommandCodeConfigModel { max_tokens, ..self@ });
        Ok(config)
    }

    /// Set the gateway permission mode for each request.
    pub fn with_permission_mode(self, permission_mode: CommandCodePermissionMode) -> (r: Self)
        ensures
            r@ == (CommandCodeConfigModel { permission_mode, ..self@ }),
    {
        let mut config = self;
        config.permission_mode = permission_mode;
        assert(config@ =~= CommandCodeConfigModel { permission_mode, ..self@ });
        config
    }

    /// Include a caller-owned thread identifier.
    pub fn with_thread_id(self, thread_id: String) -> (r: Result<Self, CommandCodeConfigError>)
        ensures
            if is_blank(thread_id@) {
                r == Err::<Self, _>(CommandCodeConfigError::EmptyField("thread ID"))
            } else if !canonical_uuid(thread_id@) {
                r == Err::<Self, _>(CommandCodeConfigError::InvalidThreadId)
            } else {
                r matches Ok(config) && config@ == (CommandCodeConfigModel {
                    thread_id: Some(thread_id@),
                    ..self@
                })
            },
    {
        let thread_id = match nonempty(thread_id, "thread ID") {
            Ok(text) => text,
            Err(error) => return Err(error),
        };
        if !is_canonical_uuid(thread_id.as_str()) {
            return Err(CommandCodeConfigError::InvalidThreadId);
        }
        let mut config = self;
        config.thread_id = Some(thread_id);
        assert(config@ =~= CommandCodeConfigModel { thread_id: Some(thread_id@), ..self@ });
        Ok(config)
    }

    /// Replace the gateway mode, such as `agent` or a caller-defined mode.
    pub fn with_mode(self, mode: String) -> (r: Result<Self, CommandCodeConfigError>)
        ensures
            if is_blank(mode@) {
                r == Err::<Self, _>(CommandCodeConfigError::EmptyField("mode"))
            } else {
                r matches Ok(config) && config@ == (CommandCodeConfigModel { mode: mode@, ..self@ })
            },
    {
        let mode = match nonempty(mode, "mode") {
            Ok(text) => text,
            Err(error) => return Err(error),
        };
        let mut config = self;
        config.mode = mode;
        assert(config@ =~= CommandCodeConfigModel { mode: mode@, ..self@ });
        Ok(config)
    }

    /// Include a temperature, given by its decimal text, in each gateway request. A
    /// temperature that is not finite has no such text.
    pub fn with_temperature(self, temperature: Option<String>) -> (r: Result<
        Self,
        CommandCodeConfigError,
    >)
        ensures
            match temperature {
                None => r == Err::<Self, _>(CommandCodeConfigError::NonFiniteTemperature),
                Some(text) => r matches Ok(config) && config@ == (CommandCodeConfigModel {
                    temperature: Some(text@),
                    ..self@
                }),
            },
    {
        match temperature {
            None => Err(CommandCodeConfigError::NonFiniteTemperature),
            Some(text) => {
                let mut config = self;
                config.temperature = Some(text);
                assert(config@ =~= CommandCodeConfigModel { temperature: Some(text@), ..self@ });
                Ok(config)
            },
        }
    }

    /// Opt into the gateway's explicit zero-data-retention request header.
    pub fn with_zero_data_retention(self, enabled: bool) -> (r: Self)
        ensures
            r@ == (CommandCodeConfigModel { zero_data_retention: enabled, ..self@ }),
    {
        let mut config = self;
        config.zero_data_retention = enabled;
        assert(config@ =~= CommandCodeConfigModel { zero_data_retention: enabled, ..self@ });
        config
    }

    /// Override the project slug sent to the gateway.
    ///
    /// The default is the final path component of the explicit working directory.
    pub fn with_project_slug(self, project_slug: String) -> (r: Result<
        Self,
        CommandCodeConfigError,
    >)
        ensures
            if is_blank(project_slug@) {
                r == Err::<Self, _>(CommandCodeConfigError::EmptyField("project slug"))
            } else {
                r matches Ok(config) && config@ == (CommandCodeConfigModel {
                    project_slug: Some(project_slug@),
                    ..self@
                })
            },
    {
        let project_slug = match nonempty(project_slug, "project slug") {
            Ok(text) => text,
            Err(error) => return Err(error),
        };
        let mut config = self;
        config.project_slug = Some(project_slug);
        assert(config@ =~= CommandCodeConfigModel { project_slug: Some(project_slug@), ..self@ });
        Ok(config)
    }

    /// Enable or disable the taste-learning client feature.
    pub fn with_taste_learning_enabled(self, enabled: bool) -> (r: Self)
        ensures
            r@ == (CommandCodeConfigModel { taste_learning_enabled: enabled, ..self@ }),
    {
        let mut config = self;
        config.taste_learning_enabled = enabled;
        assert(config@ =~= CommandCodeConfigModel { taste_learning_enabled: enabled, ..self@ });
        config
    }

    /// A description for diagnostics, in which the key is redacted.
    pub fn redacted(&self) -> (r: String)
        ensures
            r@ == redacted_form(self@),
    {
        let mut out = "CommandCodeConfig { api_key: \"[redacted]\", model: ".to_owned();
        out.push_str(quoted(self.model.as_str()).as_str());
        out.push_str(", working_directory: ");
        out.push_str(quoted(self.host.working_directory.as_str()).as_str());
        out.push_str(", max_tokens: ");
        push_number(&mut out, self.max_tokens);
        out.push_str(", permission_mode: ");
        out.push_str(self.permission_mode.as_str());
        out.push_str(", mode: ");
        out.push_str(quoted(self.mode.as_str()).as_str());
        out.push_str(" }");
        out
    }
}

/// A description of a configuration in which the key is redacted.
pub open spec fn redacted_form(config: CommandCodeConfigModel) -> Seq<char> {
    "CommandCodeConfig { api_key: \"[redacted]\", model: "@ + debug_quoted(config.model)
        + ", working_directory: "@ + debug_quoted(config.host.working_directory)
        + ", max_tokens: "@ + digits(config.max_tokens as nat) + ", permission_mode: "@
        + config.permission_mode.spec_name() + ", mode: "@ + debug_quoted(config.mode) + " }"@
}

/// Diagnostics do not depend on the key.
pub proof fn law_diagnostics_hide_the_key(config: CommandCodeConfigModel, other: Seq<char>)
    ensures
        redacted_form(config) == redacted_form(
            CommandCodeConfigModel { api_key: other, ..config },
        ),
{
}

/// Whether a character separates path components.
pub open spec fn is_separator(c: char) -> bool {
    c == '/' || c == '\\'
}

/// A path without the separators that end it.
pub open spec fn without_separators(path: Seq<char>) -> Seq<char>
    decreases path.len(),
{
    if path.len() > 0 && is_separator(path.last()) {
        without_separators(path.drop_last())
    } else {
        path
    }
}

/// What follows the last separator of a path.
pub open spec fn last_component(path: Seq<char>) -> Seq<char>
    decreases path.len(),
{
    if path.len() == 0 || is_separator(path.last()) {
        Seq::empty()
    } else {
        last_component(path.drop_last()).push(path.last())
    }
}

/// The project slug of a working directory. A root has no component of its own.
pub open spec fn slug_of(working_directory: Seq<char>) -> Seq<char> {
    let component = last_component(without_separators(working_directory));
    if component.len() == 0 {
        "project"@
    } else {
        component
    }
}

fn project_slug_from_working_directory(working_directory: &str) -> (r: String)
    ensures
        r@ == slug_of(working_directory@),
{
    let chars = chars_of(working_directory);
    let mut end: usize = chars.len();
    assert(chars@.take(end as int) =~= chars@);
    while end > 0 && (chars[end - 1] == '/' || chars[end - 1] == '\\')
        invariant
            end <= chars@.len(),
            without_separators(chars@) == without_separators(chars@.take(end as int)),
        decreases end,
    {
        assert(chars@.take(end as int).drop_last() =~= chars@.take(end - 1));
        end = end - 1;
    }
    let ghost path = chars@.take(end as int);
    assert(without_separators(chars@) == path);
    let mut start: usize = end;
    assert(chars@.subrange(end as int, end as int) =~= Seq::<char>::empty());
    assert(last_component(path) + Seq::<char>::empty() =~= last_component(path));
    assert(chars@.take(start as int) =~= path);
    while start > 0 && !(chars[start - 1] == '/' || chars[start - 1] == '\\')
        invariant
            start <= end <= chars@.len(),
            path == chars@.take(end as int),
            last_component(path) == last_component(chars@.take(start as int)) + chars@.subrange(
                start as int,
                end as int,
            ),
        decreases start,
    {
        proof {
            let part = chars@.take(start as int);
            assert(part.drop_last() =~= chars@.take(start - 1));
            assert(last_component(chars@.take(start - 1)).push(part.last()) + chars@.subrange(
                start as int,
                end as int,
            ) =~= last_component(chars@.take(start - 1)) + chars@.subrange(start - 1, end as int));
        }
        start = start - 1;
    }
    assert(last_component(chars@.take(start as int)) =~= Seq::<char>::empty());
    assert(last_component(path) =~= chars@.subrange(start as int, end as int));
    if start == end {
        "project".to_owned()
    } else {
        text_of(&chars, start, end)
    }
}

/// The wire name of a reasoning level, if it is sent at all.
pub open spec fn effort_name(level: ThinkingLevel) -> Option<Seq<char>> {
    match level {
        ThinkingLevel::Default => None,
        ThinkingLevel::Off => Some("off"@),
        ThinkingLevel::Minimal => Some("minimal"@),
        ThinkingLevel::Low => Some("low"@),
        ThinkingLevel::Medium => Some("medium"@),
        ThinkingLevel::High => Some("high"@),
        ThinkingLevel::XHigh => Some("xhigh"@),
        ThinkingLevel::Max => Some("max"@),
    }
}

/// The wire name of a reasoning level, if it is sent at all.
pub(crate) fn reasoning_effort(level: ThinkingLevel) -> (r: Option<&'static str>)
    ensures
        match r {
            Some(name) => effort_name(level) == Some(name@),
            None => effort_name(level) is None,
        },
{
    match level {
        ThinkingLevel::Default => None,
        ThinkingLevel::Off => Some("off"),
        ThinkingLevel::Minimal => Some("minimal"),
        ThinkingLevel::Low => Some("low"),
        ThinkingLevel::Medium => Some("medium"),
        ThinkingLevel::High => Some("high"),
        ThinkingLevel::XHigh => Some("xhigh"),
        ThinkingLevel::Max => Some("max"),
    }
}

/// The text of a required member.
pub open spec fn text_field(
    object: Map<Seq<char>, Json>,
    key: Seq<char>,
    subject: Seq<char>,
) -> Result<Seq<char>, Seq<char>> {
    match member(object, key) {
        Some(Json::String(text)) if text.len() > 0 => Ok(text),
        _ => Err(subject + " did not contain "@ + key),
    }
}

fn string_field<'a>(object: &'a JsonObject, key: &str, subject: &str) -> (r: Result<
    &'a str,
    String,
>)
    ensures
        match r {
            Ok(text) => text_field(object@, key@, subject@) == Ok::<Seq<char>, Seq<char>>(text@),
            Err(error) => text_field(object@, key@, subject@) == Err::<Seq<char>, Seq<char>>(
                error@,
            ),
        },
{
    if let Some(value) = object.get(key) {
        if let Some(text) = value.as_str() {
            if !text.is_empty() {
                return Ok(text);
            }
        }
    }
    let mut error = joined(subject, " did not contain ");
    error.push_str(key);
    Err(error)
}

/// The text of a member that may be absent or `null`.
pub open spec fn optional_text(object: Map<Seq<char>, Json>, key: Seq<char>) -> Result<
    Option<Seq<char>>,
    Seq<char>,
> {
    match member(object, key) {
        None => Ok(None),
        Some(Json::Null) => Ok(None),
        Some(Json::String(text)) => Ok(Some(text)),
        Some(_) => Err("Command Code context "@ + key + " must be a string or null"@),
    }
}

/// The text of a member, where an absent or `null` one is empty.
pub open spec fn text_or_empty(object: Map<Seq<char>, Json>, key: Seq<char>) -> Result<
    Seq<char>,
    Seq<char>,
> {
    match optional_text(object, key) {
        Ok(Some(text)) => Ok(text),
        Ok(None) => Ok(""@),
        Err(error) => Err(error),
    }
}

fn optional_string_or_null<'a>(object: &'a JsonObject, key: &str) -> (r: Result<
    Option<&'a str>,
    String,
>)
    ensures
        match r {
            Ok(Some(text)) => optional_text(object@, key@) == Ok::<Option<Seq<char>>, Seq<char>>(
                Some(text@),
            ),
            Ok(None) => optional_text(object@, key@) == Ok::<Option<Seq<char>>, Seq<char>>(None),
            Err(error) => optional_text(object@, key@) == Err::<Option<Seq<char>>, Seq<char>>(
                error@,
            ),
        },
{
    broadcast use crate::json::lemma_value_shape;

    match object.get(key) {
        None => Ok(None),
        Some(JsonValue::Null) => Ok(None),
        Some(JsonValue::String(text)) => Ok(Some(text.as_str())),
        Some(_) => {
            let mut error = joined("Command Code context ", key);
            error.push_str(" must be a string or null");
            Err(error)
        },
    }
}

fn string_or_null(object: &JsonObject, key: &str) -> (r: Result<String, String>)
    ensures
        match r {
            Ok(text) => text_or_empty(object@, key@) == Ok::<Seq<char>, Seq<char>>(text@),
            Err(error) => text_or_empty(object@, key@) == Err::<Seq<char>, Seq<char>>(error@),
        },
{
    match optional_string_or_null(object, key) {
        Ok(Some(text)) => Ok(text.to_owned()),
        Ok(None) => Ok("".to_owned()),
        Err(error) => Err(error),
    }
}

/// A conversion that goes on, or its diagnostic.
pub type Conversion<T> = Result<T, Seq<char>>;

/// What is known of earlier messages when one is converted.
#[verifier::ext_equal]
pub struct PartsModel {
    pub parts: Seq<Json>,
    pub names: Map<Seq<char>, Seq<char>>,
}

/// The content part that stands for a text.
pub open spec fn text_part(text: Seq<char>) -> Json {
    Json::Object(map!["type"@ => Json::String("text"@), "text"@ => Json::String(text)])
}

fn make_text_part(text: &str) -> (r: JsonValue)
    ensures
        r@ == text_part(text@),
{
    JsonValue::object(
        JsonObject::new().with("type", JsonValue::text("text")).with("text", JsonValue::text(text)),
    )
}

/// The content part that stands for a tool call.
pub open spec fn call_part(id: Seq<char>, name: Seq<char>, input: Json) -> Json {
    Json::Object(
        map![
            "type"@ => Json::String("tool-call"@),
            "toolCallId"@ => Json::String(id),
            "toolName"@ => Json::String(name),
            "input"@ => input,
        ],
    )
}

/// The conversion of a tool call whose arguments were read.
pub open spec fn read_call(
    id: Seq<char>,
    name: Seq<char>,
    input: Result<Json, Seq<char>>,
) -> Conversion<Json> {
    match input {
        Err(_) => Err("Command Code tool call arguments must be serialized JSON"@),
        Ok(input) => if input is Object {
            Ok(call_part(id, name, input))
        } else {
            Err("Command Code tool call arguments must be a JSON object"@)
        },
    }
}

/// Convert a tool call whose arguments were read.
pub fn convert_read_call(id: &str, name: &str, input: Option<JsonValue>) -> (r: Result<
    JsonValue,
    String,
>)
    ensures
        ({
            let read = match input {
                Some(value) => Ok::<Json, Seq<char>>(value@),
                None => Err::<Json, Seq<char>>(""@),
            };
            match r {
                Ok(part) => read_call(id@, name@, read) == Ok::<Json, Seq<char>>(part@),
                Err(error) => read_call(id@, name@, read) == Err::<Json, Seq<char>>(error@),
            }
        }),
{
    match input {
        None => Err("Command Code tool call arguments must be serialized JSON".to_owned()),
        Some(input) => if input.as_object().is_none() {
            Err("Command Code tool call arguments must be a JSON object".to_owned())
        } else {
            Ok(
                JsonValue::object(
                    JsonObject::new().with("type", JsonValue::text("tool-call")).with(
                        "toolCallId",
                        JsonValue::text(id),
                    ).with("toolName", JsonValue::text(name)).with("input", input),
                ),
            )
        },
    }
}

/// The parts after one more tool call of an assistant message.
pub open spec fn with_call(before: PartsModel, call: Json) -> Conversion<PartsModel> {
    match call.members() {
        None => Err("Command Code assistant tool call must be an object"@),
        Some(object) => match text_field(object, "id"@, "Command Code assistant tool call"@) {
            Err(error) => Err(error),
            Ok(id) => match member(object, "function"@) {
                Some(Json::Object(function)) => match text_field(
                    function,
                    "name"@,
                    "Command Code tool function"@,
                ) {
                    Err(error) => Err(error),
                    Ok(name) => match text_field(
                        function,
                        "arguments"@,
                        "Command Code tool function"@,
                    ) {
                        Err(error) => Err(error),
                        Ok(arguments) => match read_call(id, name, serde_from_str(arguments)) {
                            Err(error) => Err(error),
                            Ok(part) => Ok(
                                PartsModel {
                                    parts: before.parts.push(part),
                                    names: before.names.insert(id, name),
                                },
                            ),
                        },
                    },
                },
                _ => Err("Command Code assistant tool call did not contain a function"@),
            },
        },
    }
}

/// The parts after the tool calls of an assistant message.
pub open spec fn with_calls(before: PartsModel, calls: Seq<Json>) -> Conversion<PartsModel>
    decreases calls.len(),
{
    if calls.len() == 0 {
        Ok(before)
    } else {
        match with_calls(before, calls.drop_last()) {
            Err(error) => Err(error),
            Ok(parts) => with_call(parts, calls.last()),
        }
    }
}

fn add_call(parts: &mut Vec<JsonValue>, names: &mut TextMap, call: &JsonValue) -> (r: Result<
    (),
    String,
>)
    ensures
        ({
            let before = PartsModel {
                parts: crate::model::views(old(parts)@),
                names: old(names)@,
            };
            match r {
                Ok(()) => with_call(before, call@) == Ok::<PartsModel, Seq<char>>(
                    PartsModel {
                        parts: crate::model::views(final(parts)@),
                        names: final(names)@,
                    },
                ),
                Err(error) => with_call(before, call@) == Err::<PartsModel, Seq<char>>(error@),
            }
        }),
{
    let object = match call.as_object() {
        None => {
            return Err("Command Code assistant tool call must be an object".to_owned());
        },
        Some(object) => object,
    };
    let id = match string_field(object, "id", "Command Code assistant tool call") {
        Err(error) => return Err(error),
        Ok(id) => id,
    };
    let function = match object.get("function") {
        None => None,
        Some(function) => function.as_object(),
    };
    let function = match function {
        None => {
            return Err(
                "Command Code assistant tool call did not contain a function".to_owned(),
            );
        },
        Some(function) => function,
    };
    let name = match string_field(function, "name", "Command Code tool function") {
        Err(error) => return Err(error),
        Ok(name) => name,
    };
    let arguments = match string_field(function, "arguments", "Command Code tool function") {
        Err(error) => return Err(error),
        Ok(arguments) => arguments,
    };
    let input = match JsonValue::parse(arguments) {
        Ok(input) => Some(input),
        Err(_) => None,
    };
    match convert_read_call(id, name, input) {
        Err(error) => Err(error),
        Ok(part) => {
            names.insert(id.to_owned(), name.to_owned());
            parts.push(part);
            Ok(())
        },
    }
}

proof fn lemma_calls_prefix(before: PartsModel, calls: Seq<Json>, k: int)
    requires
        0 <= k <= calls.len(),
        with_calls(before, calls.take(k)) is Err,
    ensures
        with_calls(before, calls) == with_calls(before, calls.take(k)),
    decreases calls.len() - k,
{
    if k == calls.len() {
        assert(calls.take(k) =~= calls);
    } else {
        assert(calls.take(k + 1).drop_last() =~= calls.take(k));
        lemma_calls_prefix(before, calls, k + 1);
    }
}

fn add_calls(parts: &mut Vec<JsonValue>, names: &mut TextMap, calls: &Vec<JsonValue>) -> (r: Result<
    (),
    String,
>)
    ensures
        ({
            let before = PartsModel {
                parts: crate::model::views(old(parts)@),
                names: old(names)@,
            };
            let all = crate::model::views(calls@);
            match r {
                Ok(()) => with_calls(before, all) == Ok::<PartsModel, Seq<char>>(
                    PartsModel {
                        parts: crate::model::views(final(parts)@),
                        names: final(names)@,
                    },
                ),
                Err(error) => with_calls(before, all) == Err::<PartsModel, Seq<char>>(error@),
            }
        }),
{
    let ghost before = PartsModel { parts: crate::model::views(parts@), names: names@ };
    let ghost all = crate::model::views(calls@);
    let mut i: usize = 0;
    while i < calls.len()
        invariant
            i <= calls@.len(),
            all == crate::model::views(calls@),
            before == (PartsModel {
                parts: crate::model::views(old(parts)@),
                names: old(names)@,
            }),
            with_calls(before, all.take(i as int)) == Ok::<PartsModel, Seq<char>>(
                PartsModel { parts: crate::model::views(parts@), names: names@ },
            ),
        decreases calls.len() - i,
    {
        proof {
            assert(all.take(i + 1).drop_last() =~= all.take(i as int));
            assert(all.take(i + 1).last() == calls@[i as int]@);
        }
        if let Err(error) = add_call(parts, names, &calls[i]) {
            proof {
                lemma_calls_prefix(before, all, i + 1);
            }
            return Err(error);
        }
        i = i + 1;
    }
    assert(all.take(i as int) =~= all);
    Ok(())
}

/// A message in the gateway's form.
pub open spec fn message_form(role: Seq<char>, content: Seq<Json>) -> Json {
    Json::Object(map!["role"@ => Json::String(role), "content"@ => Json::Array(content)])
}

fn make_message(role: &str, content: Vec<JsonValue>) -> (r: JsonValue)
    ensures
        r@ == message_form(role@, crate::model::views(content@)),
{
    JsonValue::object(
        JsonObject::new().with("role", JsonValue::text(role)).with(
            "content",
            JsonValue::array(content),
        ),
    )
}

/// The content part that stands for a tool result.
pub open spec fn result_part(
    id: Seq<char>,
    name: Seq<char>,
    text: Seq<char>,
    is_error: bool,
) -> Json {
    Json::Object(
        map![
            "type"@ => Json::String("tool-result"@),
            "toolCallId"@ => Json::String(id),
            "toolName"@ => Json::String(name),
            "output"@ => Json::Object(
                map!["type"@ => Json::String("text"@), "value"@ => Json::String(text)],
            ),
            "isError"@ => Json::Bool(is_error),
        ],
    )
}

/// Whether a tool message reports a failure.
pub open spec fn reports_error(object: Map<Seq<char>, Json>) -> bool {
    member(object, "is_error"@) == Some(Json::Bool(true))
}

/// The conversion of one message, after the calls that earlier ones named.
pub open spec fn converted(
    message: Json,
    names: Map<Seq<char>, Seq<char>>,
) -> Conversion<(Json, Map<Seq<char>, Seq<char>>)> {
    match message.members() {
        None => Err("Command Code context message must be an object"@),
        Some(object) => match text_field(object, "role"@, "Command Code context message"@) {
            Err(error) => Err(error),
            Ok(role) => if role == "user"@ {
                match text_or_empty(object, "content"@) {
                    Err(error) => Err(error),
                    Ok(text) => Ok((message_form("user"@, seq![text_part(text)]), names)),
                }
            } else if role == "assistant"@ {
                match optional_text(object, "content"@) {
                    Err(error) => Err(error),
                    Ok(text) => {
                        let parts = match text {
                            Some(text) if text.len() > 0 => seq![text_part(text)],
                            _ => Seq::empty(),
                        };
                        let calls = match member(object, "tool_calls"@) {
                            Some(Json::Array(calls)) => calls,
                            _ => Seq::empty(),
                        };
                        match with_calls(PartsModel { parts, names }, calls) {
                            Err(error) => Err(error),
                            Ok(all) => Ok((message_form("assistant"@, all.parts), all.names)),
                        }
                    },
                }
            } else if role == "tool"@ {
                match text_field(object, "tool_call_id"@, "Command Code tool result"@) {
                    Err(error) => Err(error),
                    Ok(id) => if !names.contains_key(id) {
                        Err(
                            "Command Code tool result has no preceding assistant tool-call name"@,
                        )
                    } else {
                        match text_or_empty(object, "content"@) {
                            Err(error) => Err(error),
                            Ok(text) => Ok(
                                (
                                    message_form(
                                        "tool"@,
                                        seq![
                                            result_part(
                                                id,
                                                names[id],
                                                text,
                                                reports_error(object),
                                            ),
                                        ],
                                    ),
                                    names,
                                ),
                            ),
                        }
                    },
                }
            } else {
                Err("Command Code context role is unsupported"@)
            },
        },
    }
}

/// The conversion of a conversation.
pub open spec fn converted_all(messages: Seq<Json>) -> Conversion<PartsModel>
    decreases messages.len(),
{
    if messages.len() == 0 {
        Ok(PartsModel { parts: Seq::empty(), names: Map::empty() })
    } else {
        match converted_all(messages.drop_last()) {
            Err(error) => Err(error),
            Ok(before) => match converted(messages.last(), before.names) {
                Err(error) => Err(error),
                Ok((form, names)) => Ok(PartsModel { parts: before.parts.push(form), names }),
            },
        }
    }
}

proof fn lemma_converted_prefix(messages: Seq<Json>, k: int)
    requires
        0 <= k <= messages.len(),
        converted_all(messages.take(k)) is Err,
    ensures
        converted_all(messages) == converted_all(messages.take(k)),
    decreases messages.len() - k,
{
    if k == messages.len() {
        assert(messages.take(k) =~= messages);
    } else {
        assert(messages.take(k + 1).drop_last() =~= messages.take(k));
        lemma_converted_prefix(messages, k + 1);
    }
}

fn single(value: JsonValue) -> (r: Vec<JsonValue>)
    ensures
        crate::model::views(r@) == seq![value@],
{
    let mut out: Vec<JsonValue> = Vec::new();
    out.push(value);
    assert(crate::model::views(out@) =~= seq![value@]);
    out
}

fn assistant_message(object: &JsonObject, names: &mut TextMap) -> (r: Result<JsonValue, String>)
    requires
        text_field(object@, "role"@, "Command Code context message"@) == Ok::<
            Seq<char>,
            Seq<char>,
        >("assistant"@),
        "assistant"@ != "user"@,
    ensures
        match r {
            Ok(form) => converted(Json::Object(object@), old(names)@) == Ok::<_, Seq<char>>(
                (form@, final(names)@),
            ),
            Err(error) => converted(Json::Object(object@), old(names)@) == Err::<
                (Json, Map<Seq<char>, Seq<char>>),
                Seq<char>,
            >(error@),
        },
{
    broadcast use crate::json::lemma_value_shape;

    let mut content: Vec<JsonValue> = Vec::new();
    assert(crate::model::views(content@) =~= Seq::<Json>::empty());
    match optional_string_or_null(object, "content") {
        Err(error) => return Err(error),
        Ok(None) => {},
        Ok(Some(text)) => {
            if !text.is_empty() {
                content.push(make_text_part(text));
                assert(crate::model::views(content@) =~= seq![text_part(text@)]);
            }
        },
    }
    if let Some(JsonValue::Array(calls)) = object.get("tool_calls") {
        if let Err(error) = add_calls(&mut content, names, calls) {
            return Err(error);
        }
    }
    Ok(make_message("assistant", content))
}

fn tool_message(object: &JsonObject, names: &TextMap) -> (r: Result<JsonValue, String>)
    requires
        text_field(object@, "role"@, "Command Code context message"@) == Ok::<
            Seq<char>,
            Seq<char>,
        >("tool"@),
        "tool"@ != "user"@,
        "tool"@ != "assistant"@,
    ensures
        match r {
            Ok(form) => converted(Json::Object(object@), names@) == Ok::<_, Seq<char>>(
                (form@, names@),
            ),
            Err(error) => converted(Json::Object(object@), names@) == Err::<
                (Json, Map<Seq<char>, Seq<char>>),
                Seq<char>,
            >(error@),
        },
{
    let id = match string_field(object, "tool_call_id", "Command Code tool result") {
        Err(error) => return Err(error),
        Ok(id) => id,
    };
    let name = match names.get(id) {
        None => {
            return Err(
                "Command Code tool result has no preceding assistant tool-call name".to_owned(),
            );
        },
        Some(name) => name,
    };
    let text = match string_or_null(object, "content") {
        Err(error) => return Err(error),
        Ok(text) => text,
    };
    let is_error = match object.get("is_error") {
        None => false,
        Some(value) => match value.as_bool() {
            Some(flag) => flag,
            None => false,
        },
    };
    assert(is_error == reports_error(object@));
    let output = JsonObject::new().with("type", JsonValue::text("text")).with(
        "value",
        JsonValue::text(text.as_str()),
    );
    let part = JsonValue::object(
        JsonObject::new().with("type", JsonValue::text("tool-result")).with(
            "toolCallId",
            JsonValue::text(id),
        ).with("toolName", JsonValue::text(name)).with("output", JsonValue::object(output)).with(
            "isError",
            JsonValue::flag(is_error),
        ),
    );
    Ok(make_message("tool", single(part)))
}

/// Convert one message of a Chat Completions conversation.
pub fn commandcode_message(message: &JsonValue, tool_names: &mut TextMap) -> (r: Result<
    JsonValue,
    String,
>)
    ensures
        match r {
            Ok(form) => converted(message@, old(tool_names)@) == Ok::<_, Seq<char>>(
                (form@, final(tool_names)@),
            ),
            Err(error) => converted(message@, old(tool_names)@) == Err::<
                (Json, Map<Seq<char>, Seq<char>>),
                Seq<char>,
            >(error@),
        },
{
    proof {
        reveal_strlit("user");
        reveal_strlit("assistant");
        reveal_strlit("tool");
        assert("user"@.len() == 4 && "assistant"@.len() == 9 && "tool"@.len() == 4);
        assert("user"@[0] != "tool"@[0]);
    }
    let object = match message.as_object() {
        None => {
            return Err("Command Code context message must be an object".to_owned());
        },
        Some(object) => object,
    };
    assert(message@ == Json::Object(object@));
    let role = match string_field(object, "role", "Command Code context message") {
        Err(error) => return Err(error),
        Ok(role) => role,
    };
    if same(role, "user") {
        match string_or_null(object, "content") {
            Err(error) => Err(error),
            Ok(text) => Ok(make_message("user", single(make_text_part(text.as_str())))),
        }
    } else if same(role, "assistant") {
        assistant_message(object, tool_names)
    } else if same(role, "tool") {
        tool_message(object, tool_names)
    } else {
        Err("Command Code context role is unsupported".to_owned())
    }
}

/// Convert a Chat Completions conversation.
pub fn convert_messages(messages: &Vec<JsonValue>) -> (r: Result<Vec<JsonValue>, String>)
    ensures
        ({
            let all = converted_all(crate::model::views(messages@));
            match r {
                Ok(forms) => all matches Ok(parts) && parts.parts == crate::model::views(forms@),
                Err(error) => all matches Err(text) && text == error@,
            }
        }),
{
    let ghost all = crate::model::views(messages@);
    let mut forms: Vec<JsonValue> = Vec::new();
    let mut names = TextMap::new();
    let mut i: usize = 0;
    assert(crate::model::views(forms@) =~= Seq::<Json>::empty());
    while i < messages.len()
        invariant
            i <= messages@.len(),
            all == crate::model::views(messages@),
            converted_all(all.take(i as int)) == Ok::<PartsModel, Seq<char>>(
                PartsModel { parts: crate::model::views(forms@), names: names@ },
            ),
        decreases messages.len() - i,
    {
        proof {
            assert(all.take(i + 1).drop_last() =~= all.take(i as int));
            assert(all.take(i + 1).last() == messages@[i as int]@);
        }
        match commandcode_message(&messages[i], &mut names) {
            Err(error) => {
                proof {
                    lemma_converted_prefix(all, i + 1);
                }
                return Err(error);
            },
            Ok(form) => {
                forms.push(form);
            },
        }
        i = i + 1;
    }
    assert(all.take(i as int) =~= all);
    Ok(forms)
}

/// The conversion of a serialized conversation.
pub open spec fn context_forms(context: Seq<char>) -> Conversion<Seq<Json>> {
    match serde_from_str(context) {
        Ok(Json::Array(messages)) => match converted_all(messages) {
            Ok(all) => Ok(all.parts),
            Err(error) => Err(error),
        },
        _ => Err("Command Code received invalid converted context"@),
    }
}

/// Convert a serialized conversation.
pub fn commandcode_messages(context: &str) -> (r: Result<Vec<JsonValue>, String>)
    ensures
        match r {
            Ok(forms) => context_forms(context@) == Ok::<Seq<Json>, Seq<char>>(
                crate::model::views(forms@),
            ),
            Err(error) => context_forms(context@) == Err::<Seq<Json>, Seq<char>>(error@),
        },
{
    match JsonValue::parse(context) {
        Err(_) => Err("Command Code received invalid converted context".to_owned()),
        Ok(value) => match value.as_array() {
            None => Err("Command Code received invalid converted context".to_owned()),
            Some(messages) => convert_messages(messages),
        },
    }
}

/// A tool in the gateway's form.
pub open spec fn tool_form(tool: DefinitionModel, schema: Json) -> Json {
    Json::Object(
        map![
            "name"@ => Json::String(tool.name),
            "description"@ => Json::String(tool.description),
            "input_schema"@ => schema,
        ],
    )
}

/// The tools of a request in the gateway's form. A schema is sent as it reads back from its
/// own text.
pub open spec fn tool_forms(tools: Seq<DefinitionModel>) -> Conversion<Seq<Json>>
    decreases tools.len(),
{
    if tools.len() == 0 {
        Ok(Seq::empty())
    } else {
        match tool_forms(tools.drop_last()) {
            Err(error) => Err(error),
            Ok(before) => match serde_from_str(serde_to_string(tools.last().schema)) {
                Err(_) => Err("captured tool schema cannot be decoded"@),
                Ok(schema) => Ok(before.push(tool_form(tools.last(), schema))),
            },
        }
    }
}

proof fn lemma_tools_prefix(tools: Seq<DefinitionModel>, k: int)
    requires
        0 <= k <= tools.len(),
        tool_forms(tools.take(k)) is Err,
    ensures
        tool_forms(tools) == tool_forms(tools.take(k)),
    decreases tools.len() - k,
{
    if k == tools.len() {
        assert(tools.take(k) =~= tools);
    } else {
        assert(tools.take(k + 1).drop_last() =~= tools.take(k));
        lemma_tools_prefix(tools, k + 1);
    }
}

fn make_tools(tools: &Vec<ToolDefinition>) -> (r: Result<Vec<JsonValue>, String>)
    ensures
        match r {
            Ok(forms) => tool_forms(crate::model::views(tools@)) == Ok::<Seq<Json>, Seq<char>>(
                crate::model::views(forms@),
            ),
            Err(error) => tool_forms(crate::model::views(tools@)) == Err::<Seq<Json>, Seq<char>>(
                error@,
            ),
        },
{
    let ghost all = crate::model::views(tools@);
    let mut forms: Vec<JsonValue> = Vec::new();
    let mut i: usize = 0;
    assert(crate::model::views(forms@) =~= Seq::<Json>::empty());
    while i < tools.len()
        invariant
            i <= tools@.len(),
            all == crate::model::views(tools@),
            tool_forms(all.take(i as int)) == Ok::<Seq<Json>, Seq<char>>(
                crate::model::views(forms@),
            ),
        decreases tools.len() - i,
    {
        let tool = &tools[i];
        proof {
            assert(all.take(i + 1).drop_last() =~= all.take(i as int));
            assert(all.take(i + 1).last() == tool@);
        }
        match JsonValue::parse(tool.schema.to_json_string().as_str()) {
            Err(_) => {
                proof {
                    lemma_tools_prefix(all, i + 1);
                }
                return Err("captured tool schema cannot be decoded".to_owned());
            },
            Ok(schema) => {
                let form = JsonValue::object(
                    JsonObject::new().with("name", JsonValue::text(tool.name.as_str())).with(
                        "description",
                        JsonValue::text(tool.description.as_str()),
                    ).with("input_schema", schema),
                );
                forms.push(form);
            },
        }
        i = i + 1;
    }
    assert(all.take(i as int) =~= all);
    Ok(forms)
}

/// The parameters of a request.
pub open spec fn params_form(
    config: CommandCodeConfigModel,
    request: RequestModel,
    messages: Seq<Json>,
    tools: Seq<Json>,
) -> Json {
    let base = map![
        "model"@ => Json::String(config.model),
        "messages"@ => Json::Array(messages),
        "tools"@ => Json::Array(tools),
        "system"@ => Json::String(request.system_prompt),
        "max_tokens"@ => Json::Number(NumberModel::Int(config.max_tokens as int)),
        "stream"@ => Json::Bool(true),
    ];
    let warm = match config.temperature {
        Some(text) => base.insert("temperature"@, Json::Number(NumberModel::Float(text))),
        None => base,
    };
    Json::Object(
        match effort_name(request.thinking_level) {
            Some(name) => warm.insert("reasoning_effort"@, Json::String(name)),
            None => warm,
        },
    )
}

/// The host part of a request. Nothing is claimed of a repository.
pub open spec fn host_form(host: HostContextModel) -> Json {
    Json::Object(
        map![
            "workingDir"@ => Json::String(host.working_directory),
            "date"@ => Json::String(host.date),
            "environment"@ => Json::String(host.environment),
            "structure"@ => Json::Array(Seq::empty()),
            "isGitRepo"@ => Json::Bool(false),
            "currentBranch"@ => Json::String(""@),
            "mainBranch"@ => Json::String(""@),
            "gitStatus"@ => Json::String(""@),
            "recentCommits"@ => Json::Array(Seq::empty()),
        ],
    )
}

/// The whole request. An unset thread identifier is left out.
pub open spec fn payload_form(
    config: CommandCodeConfigModel,
    request: RequestModel,
    messages: Seq<Json>,
    tools: Seq<Json>,
) -> Json {
    let base = map![
        "config"@ => host_form(config.host),
        "memory"@ => Json::Null,
        "taste"@ => Json::Null,
        "skills"@ => Json::Null,
        "permissionMode"@ => Json::String(config.permission_mode.spec_name()),
        "mode"@ => Json::String(config.mode),
        "params"@ => params_form(config, request, messages, tools),
    ];
    Json::Object(
        match config.thread_id {
            Some(id) => base.insert("threadId"@, Json::String(id)),
            None => base,
        },
    )
}

/// The payload of a request, or why it cannot be sent.
pub open spec fn payload_of(config: CommandCodeConfigModel, request: RequestModel) -> Conversion<
    Json,
> {
    match context_forms(request.context) {
        Err(error) => Err(error),
        Ok(messages) => match tool_forms(request.tools) {
            Err(error) => Err(error),
            Ok(tools) => Ok(payload_form(config, request, messages, tools)),
        },
    }
}

/// Command Code adapter.
///
/// It gives the host the request to send, and a finite stream after the host has collected the
/// gateway's NDJSON response. Its reader preserves the gateway event grammar and rejects a
/// missing terminal event.
pub struct CommandCodeProvider {
    config: CommandCodeConfig,
    usage: Usage,
}

/// Model of a [`CommandCodeProvider`].
#[verifier::ext_equal]
pub struct CommandCodeModel {
    pub config: CommandCodeConfigModel,
    pub usage: UsageModel,
}

impl View for CommandCodeProvider {
    type V = CommandCodeModel;

    closed spec fn view(&self) -> CommandCodeModel {
        CommandCodeModel { config: self.config@, usage: self.usage@ }
    }
}

/// Whether a request asks for the configured model, or for none in particular.
pub open spec fn serves(config: CommandCodeConfigModel, request: RequestModel) -> bool {
    request.model matches Some(model) ==> model.provider == "command-code"@ && model.model
        == config.model
}

/// The bearer headers of a request.
pub open spec fn headers_of(config: CommandCodeConfigModel) -> Seq<Seq<char>> {
    let slug = match config.project_slug {
        Some(slug) => slug,
        None => slug_of(config.host.working_directory),
    };
    let base = seq![
        "Accept: application/x-ndjson"@,
        "Content-Type: application/json"@,
        "Authorization: Bearer "@ + config.api_key,
        "X-CLI-Environment: production"@,
        "X-Command-Code-Version: "@ + CLIENT_VERSION@,
        "User-Agent: cli"@,
        "X-Project-Slug: "@ + slug,
        if config.taste_learning_enabled {
            "X-Taste-Learning: true"@
        } else {
            "X-Taste-Learning: false"@
        },
        "X-Co-Flag: false"@,
    ];
    let session = match config.thread_id {
        Some(id) => base.push("X-Session-Id: "@ + id),
        None => base,
    };
    if config.zero_data_retention {
        session.push("X-Cmd-Zdr: 1"@)
    } else {
        session
    }
}

/// A token total after one more report, which counts as zero where it is absent.
pub open spec fn total(before: Option<u64>, report: Option<u64>) -> Option<u64> {
    let a = match before {
        Some(n) => n,
        None => 0,
    };
    let b = match report {
        Some(n) => n,
        None => 0,
    };
    Some(saturating_sum(a, b))
}

/// The totals after one more response.
pub open spec fn with_report(totals: UsageModel, report: UsageModel) -> UsageModel {
    UsageModel {
        input_tokens: total(totals.input_tokens, report.input_tokens),
        output_tokens: total(totals.output_tokens, report.output_tokens),
        reasoning_tokens: total(totals.reasoning_tokens, report.reasoning_tokens),
        ..totals
    }
}

fn add_tokens(before: Option<u64>, report: Option<u64>) -> (r: Option<u64>)
    ensures
        r == total(before, report),
{
    let a: u64 = match before {
        Some(n) => n,
        None => 0,
    };
    let b: u64 = match report {
        Some(n) => n,
        None => 0,
    };
    Some(a.saturating_add(b))
}

/// The events that a response gives: reported token counts stand before the terminal event.
pub open spec fn settled_events(
    outcome: Conversion<(Seq<StreamEventModel>, UsageModel)>,
) -> Seq<StreamEventModel> {
    match outcome {
        Err(message) => seq![StreamEventModel::Error { message }],
        Ok((events, usage)) => if usage.input_tokens is Some || usage.output_tokens is Some
            || usage.reasoning_tokens is Some {
            events.drop_last().push(StreamEventModel::Usage(usage)).push(events.last())
        } else {
            events
        },
    }
}

impl CommandCodeProvider {
    /// Construct an adapter from explicit caller-owned configuration.
    pub fn new(config: CommandCodeConfig) -> (r: Self)
        ensures
            r@ == (CommandCodeModel { config: config@, usage: UsageModel::unreported() }),
    {
        CommandCodeProvider { config, usage: Usage::default() }
    }

    /// Aggregate portable token usage across settled turns.
    pub fn usage_snapshot(&self) -> (r: Usage)
        ensures
            r@ == self@.usage,
    {
        self.usage.duplicate()
    }

    /// Accept a request for the configured model.
    pub fn validate_model(&self, request: &ModelRequest) -> (r: Result<(), String>)
        ensures
            r is Ok <==> serves(self@.config, request@),
            r matches Err(e) ==> e@
                == "Command Code configuration does not match the requested model"@,
    {
        match &request.model {
            None => Ok(()),
            Some(model) => if same(model.provider.as_str(), "command-code") && same(
                model.model.as_str(),
                self.config.model.as_str(),
            ) {
                Ok(())
            } else {
                Err("Command Code configuration does not match the requested model".to_owned())
            },
        }
    }

    fn make_params(
        &self,
        request: &ModelRequest,
        messages: Vec<JsonValue>,
        tools: Vec<JsonValue>,
    ) -> (r: JsonValue)
        ensures
            r@ == params_form(
                self@.config,
                request@,
                crate::model::views(messages@),
                crate::model::views(tools@),
            ),
    {
        let mut params = JsonObject::new().with(
            "model",
            JsonValue::text(self.config.model.as_str()),
        ).with("messages", JsonValue::array(messages)).with("tools", JsonValue::array(tools)).with(
            "system",
            JsonValue::text(request.system_prompt.as_str()),
        ).with("max_tokens", JsonValue::unsigned(self.config.max_tokens)).with(
            "stream",
            JsonValue::flag(true),
        );
        if let Some(text) = &self.config.temperature {
            params = params.with("temperature", JsonValue::decimal(text.as_str()));
        }
        if let Some(name) = reasoning_effort(request.thinking_level) {
            params = params.with("reasoning_effort", JsonValue::text(name));
        }
        JsonValue::object(params)
    }

    fn make_host(&self) -> (r: JsonValue)
        ensures
            r@ == host_form(self@.config.host),
    {
        let host = &self.config.host;
        let structure: Vec<JsonValue> = Vec::new();
        let commits: Vec<JsonValue> = Vec::new();
        assert(crate::model::views(structure@) =~= Seq::<Json>::empty());
        assert(crate::model::views(commits@) =~= Seq::<Json>::empty());
        JsonValue::object(
            JsonObject::new().with(
                "workingDir",
                JsonValue::text(host.working_directory.as_str()),
            ).with("date", JsonValue::text(host.date.as_str())).with(
                "environment",
                JsonValue::text(host.environment.as_str()),
            ).with("structure", JsonValue::array(structure)).with(
                "isGitRepo",
                JsonValue::flag(false),
            ).with("currentBranch", JsonValue::text("")).with(
                "mainBranch",
                JsonValue::text(""),
            ).with("gitStatus", JsonValue::text("")).with(
                "recentCommits",
                JsonValue::array(commits),
            ),
        )
    }

    /// The payload of a request.
    pub fn build_payload(&self, request: &ModelRequest) -> (r: Result<JsonValue, String>)
        ensures
            match r {
                Ok(payload) => payload_of(self@.config, request@) == Ok::<Json, Seq<char>>(
                    payload@,
                ),
                Err(error) => payload_of(self@.config, request@) == Err::<Json, Seq<char>>(error@),
            },
    {
        let messages = match commandcode_messages(request.context.as_str()) {
            Err(error) => return Err(error),
            Ok(messages) => messages,
        };
        let tools = match make_tools(&request.tools) {
            Err(error) => return Err(error),
            Ok(tools) => tools,
        };
        let mut payload = JsonObject::new().with("config", self.make_host()).with(
            "memory",
            JsonValue::null(),
        ).with("taste", JsonValue::null()).with("skills", JsonValue::null()).with(
            "permissionMode",
            JsonValue::text(self.config.permission_mode.as_str()),
        ).with("mode", JsonValue::text(self.config.mode.as_str())).with(
            "params",
            self.make_params(request, messages, tools),
        );
        if let Some(id) = &self.config.thread_id {
            payload = payload.with("threadId", JsonValue::text(id.as_str()));
        }
        Ok(JsonValue::object(payload))
    }

    /// The serialized payload of a request for the configured model.
    pub fn prepare(&self, request: &ModelRequest) -> (r: Result<String, String>)
        ensures
            if !serves(self@.config, request@) {
                r matches Err(e) && e@
                    == "Command Code configuration does not match the requested model"@
            } else {
                match payload_of(self@.config, request@) {
                    Ok(payload) => r matches Ok(text) && text@ == serde_to_string(payload),
                    Err(error) => r matches Err(e) && e@ == error,
                }
            },
    {
        if let Err(error) = self.validate_model(request) {
            return Err(error);
        }
        match self.build_payload(request) {
            Ok(payload) => Ok(payload.to_json_string()),
            Err(error) => Err(error),
        }
    }

    fn project_slug(&self) -> (r: String)
        ensures
            r@ == (match self@.config.project_slug {
                Some(slug) => slug,
                None => slug_of(self@.config.host.working_directory),
            }),
    {
        match &self.config.project_slug {
            Some(slug) => slug.clone(),
            None => project_slug_from_working_directory(
                self.config.host.working_directory.as_str(),
            ),
        }
    }

    /// The headers of a request.
    pub fn request_headers(&self) -> (r: Vec<String>)
        ensures
            crate::model::views(r@) == headers_of(self@.config),
    {
        let mut headers: Vec<String> = Vec::new();
        headers.push("Accept: application/x-ndjson".to_owned());
        headers.push("Content-Type: application/json".to_owned());
        headers.push(joined("Authorization: Bearer ", self.config.api_key.as_str()));
        headers.push("X-CLI-Environment: production".to_owned());
        headers.push(joined("X-Command-Code-Version: ", CLIENT_VERSION));
        headers.push("User-Agent: cli".to_owned());
        headers.push(joined("X-Project-Slug: ", self.project_slug().as_str()));
        if self.config.taste_learning_enabled {
            headers.push("X-Taste-Learning: true".to_owned());
        } else {
            headers.push("X-Taste-Learning: false".to_owned());
        }
        headers.push("X-Co-Flag: false".to_owned());
        if let Some(id) = &self.config.thread_id {
            headers.push(joined("X-Session-Id: ", id.as_str()));
        }
        if self.config.zero_data_retention {
            headers.push("X-Cmd-Zdr: 1".to_owned());
        }
        assert(crate::model::views(headers@) =~= headers_of(self@.config));
        headers
    }

    /// Count the tokens of one response.
    pub fn record_usage(&mut self, usage: &Usage)
        ensures
            final(self)@ == (CommandCodeModel {
                usage: with_report(old(self)@.usage, usage@),
                ..old(self)@
            }),
    {
        let ghost before = self@;
        self.usage.input_tokens = add_tokens(self.usage.input_tokens, usage.input_tokens);
        self.usage.output_tokens = add_tokens(self.usage.output_tokens, usage.output_tokens);
        self.usage.reasoning_tokens = add_tokens(
            self.usage.reasoning_tokens,
            usage.reasoning_tokens,
        );
        assert(self@ =~= CommandCodeModel {
            usage: with_report(before.usage, usage@),
            ..before
        });
    }

    /// The stream of a request that was cancelled before it was sent.
    pub fn cancelled_stream() -> (r: ModelStream)
        ensures
            crate::model::views(r.events@) == seq![StreamEventModel::End(StopReason::Cancelled)],
    {
        let mut events: Vec<ModelStreamEvent> = Vec::new();
        events.push(ModelStreamEvent::End(StopReason::Cancelled));
        assert(crate::model::views(events@)
            =~= seq![StreamEventModel::End(StopReason::Cancelled)]);
        ModelStream { events }
    }

    /// The stream of a settled request.
    ///
    /// A response that was read has at least its terminal event.
    pub fn response_stream(
        &mut self,
        outcome: Result<(Vec<ModelStreamEvent>, Usage), String>,
    ) -> (r: ModelStream)
        requires
            outcome matches Ok(response) ==> response.0@.len() > 0,
        ensures
            match outcome {
                Ok(response) => {
                    &&& crate::model::views(r.events@) == settled_events(
                        Ok((crate::model::views(response.0@), response.1@)),
                    )
                    &&& final(self)@ == (CommandCodeModel {
                        usage: with_report(old(self)@.usage, response.1@),
                        ..old(self)@
                    })
                },
                Err(message) => {
                    &&& crate::model::views(r.events@) == settled_events(Err(message@))
                    &&& final(self)@ == old(self)@
                },
            },
    {
        match outcome {
            Err(message) => {
                let mut events: Vec<ModelStreamEvent> = Vec::new();
                events.push(ModelStreamEvent::Error { message });
                assert(crate::model::views(events@)
                    =~= seq![StreamEventModel::Error { message: message@ }]);
                ModelStream { events }
            },
            Ok((mut events, usage)) => {
                self.record_usage(&usage);
                if usage.input_tokens.is_some() || usage.output_tokens.is_some()
                    || usage.reasoning_tokens.is_some() {
                    let ghost all = crate::model::views(events@);
                    if let Some(terminal) = events.pop() {
                        assert(crate::model::views(events@) =~= all.drop_last());
                        events.push(ModelStreamEvent::Usage(usage));
                        events.push(terminal);
                    }
                }
                ModelStream { events }
            },
        }
    }

    /// The stream of a response that the transport delivered.
    pub fn read_response(&mut self, bytes: &[u8]) -> (r: ModelStream)
        ensures
            crate::model::views(r.events@) == settled_events(response_of(bytes@)),
            final(self)@ == match response_of(bytes@) {
                Ok((_, usage)) => CommandCodeModel {
                    usage: with_report(old(self)@.usage, usage),
                    ..old(self)@
                },
                Err(_) => old(self)@,
            },
    {
        let outcome = parse_ndjson_response(bytes);
        self.response_stream(outcome)
    }
}

/// What was read of a response.
#[verifier::ext_equal]
pub struct NdjsonModel {
    pub events: Seq<StreamEventModel>,
    pub usage: UsageModel,
    pub terminal: bool,
}

/// What a reader knows before the first line.
pub open spec fn unread() -> NdjsonModel {
    NdjsonModel { events: Seq::empty(), usage: UsageModel::unreported(), terminal: false }
}

/// The value of a whole-number member.
pub open spec fn count_of(object: Map<Seq<char>, Json>, key: Seq<char>) -> Option<u64> {
    match member(object, key) {
        Some(value) => value.natural(),
        None => None,
    }
}

/// The token counts of a finished response.
pub open spec fn usage_of(value: Option<Json>) -> UsageModel {
    match value {
        Some(Json::Object(object)) => UsageModel {
            input_tokens: count_of(object, "inputTokens"@),
            output_tokens: count_of(object, "outputTokens"@),
            reasoning_tokens: match count_of(object, "reasoningTokens"@) {
                Some(n) => Some(n),
                None => count_of(object, "reasoning_tokens"@),
            },
            ..UsageModel::unreported()
        },
        _ => UsageModel::unreported(),
    }
}

/// Why a response finished.
pub open spec fn reason_of(value: Option<Json>) -> StopReason {
    if value == Some(Json::String("tool-calls"@)) {
        StopReason::ToolUse
    } else if value == Some(Json::String("length"@)) {
        StopReason::Length
    } else {
        StopReason::EndTurn
    }
}

/// The input of a tool-call event.
pub open spec fn input_of(object: Map<Seq<char>, Json>) -> Option<Json> {
    match member(object, "input"@) {
        Some(value) => Some(value),
        None => member(object, "args"@),
    }
}

impl NdjsonModel {
    /// The reader after an event.
    pub open spec fn pushed(self, event: StreamEventModel) -> NdjsonModel {
        NdjsonModel { events: self.events.push(event), ..self }
    }

    /// The reader after a terminal event.
    pub open spec fn closed(self, event: StreamEventModel) -> NdjsonModel {
        NdjsonModel { terminal: true, ..self.pushed(event) }
    }

    /// The reader after a tool-call event.
    pub open spec fn with_tool_call(self, object: Map<Seq<char>, Json>) -> Conversion<
        NdjsonModel,
    > {
        match text_field(object, "toolCallId"@, "Command Code tool call"@) {
            Err(error) => Err(error),
            Ok(id) => match text_field(object, "toolName"@, "Command Code tool call"@) {
                Err(error) => Err(error),
                Ok(name) => match input_of(object) {
                    Some(Json::Object(input)) => Ok(
                        self.pushed(
                            StreamEventModel::ToolCall(
                                CallModel {
                                    id,
                                    name,
                                    arguments: serde_to_string(Json::Object(input)),
                                },
                            ),
                        ),
                    ),
                    _ => Err("Command Code tool call did not contain object input"@),
                },
            },
        }
    }

    /// The reader after an event of some type.
    pub open spec fn with_kind(self, kind: Seq<char>, object: Map<Seq<char>, Json>) -> Conversion<
        NdjsonModel,
    > {
        if kind == "text-delta"@ {
            match text_field(object, "text"@, "Command Code text delta"@) {
                Err(error) => Err(error),
                Ok(text) => Ok(self.pushed(StreamEventModel::TextDelta(text))),
            }
        } else if kind == "tool-call"@ {
            self.with_tool_call(object)
        } else if kind == "finish"@ {
            let usage = usage_of(member(object, "totalUsage"@));
            Ok(
                NdjsonModel { usage, ..self }.closed(
                    StreamEventModel::End(reason_of(member(object, "finishReason"@))),
                ),
            )
        } else if kind == "error"@ {
            Ok(
                self.closed(
                    StreamEventModel::Error { message: "Command Code provider returned an error"@ },
                ),
            )
        } else if kind == "abort"@ {
            Ok(
                self.closed(
                    StreamEventModel::Aborted { message: "Command Code stream aborted"@ },
                ),
            )
        } else {
            Ok(self)
        }
    }

    /// The reader after an event. After the terminal one, only metadata may follow.
    pub open spec fn with_event(self, event: Json) -> Conversion<NdjsonModel> {
        match event.members() {
            None => Err("Command Code NDJSON event must be an object"@),
            Some(object) => match text_field(object, "type"@, "Command Code NDJSON event"@) {
                Err(error) => Err(error),
                Ok(kind) => if !self.terminal {
                    self.with_kind(kind, object)
                } else if kind == "provider-metadata"@ {
                    Ok(self)
                } else {
                    Err("Command Code response contained events after its terminal event"@)
                },
            },
        }
    }
}

/// What the first lines of a response give. Blank lines are skipped.
pub open spec fn read_lines(lines: Seq<Seq<char>>) -> Conversion<NdjsonModel>
    decreases lines.len(),
{
    if lines.len() == 0 {
        Ok(unread())
    } else {
        match read_lines(lines.drop_last()) {
            Err(error) => Err(error),
            Ok(before) => if is_blank(lines.last()) {
                Ok(before)
            } else {
                match serde_from_str(lines.last()) {
                    Err(_) => Err("Command Code returned invalid NDJSON"@),
                    Ok(event) => before.with_event(event),
                }
            },
        }
    }
}

/// What a response gives.
pub open spec fn response_of(bytes: Seq<u8>) -> Conversion<(Seq<StreamEventModel>, UsageModel)> {
    if !valid_utf8(bytes) {
        Err("Command Code returned a non-UTF-8 NDJSON response"@)
    } else {
        match read_lines(lines_of(decode_utf8(bytes))) {
            Err(error) => Err(error),
            Ok(state) => if state.terminal {
                Ok((state.events, state.usage))
            } else {
                Err("Command Code stream ended without a terminal event"@)
            },
        }
    }
}

/// Reader of one NDJSON response.
#[derive(Debug)]
pub struct NdjsonReader {
    events: Vec<ModelStreamEvent>,
    usage: Usage,
    terminal: bool,
}

impl View for NdjsonReader {
    type V = NdjsonModel;

    closed spec fn view(&self) -> NdjsonModel {
        NdjsonModel {
            events: crate::model::views(self.events@),
            usage: self.usage@,
            terminal: self.terminal,
        }
    }
}

fn finish_reason(value: Option<&JsonValue>) -> (r: StopReason)
    ensures
        r == reason_of(
            match value {
                Some(value) => Some(value@),
                None => None,
            },
        ),
{
    if let Some(value) = value {
        if let Some(text) = value.as_str() {
            if same(text, "tool-calls") {
                return StopReason::ToolUse;
            }
            if same(text, "length") {
                return StopReason::Length;
            }
        }
    }
    StopReason::EndTurn
}

fn count(object: &JsonObject, key: &str) -> (r: Option<u64>)
    ensures
        r == count_of(object@, key@),
{
    match object.get(key) {
        Some(value) => value.as_u64(),
        None => None,
    }
}

fn parse_usage(value: Option<&JsonValue>) -> (r: Usage)
    ensures
        r@ == usage_of(
            match value {
                Some(value) => Some(value@),
                None => None,
            },
        ),
{
    if let Some(value) = value {
        if let Some(object) = value.as_object() {
            let mut usage = Usage::default();
            usage.input_tokens = count(object, "inputTokens");
            usage.output_tokens = count(object, "outputTokens");
            usage.reasoning_tokens = match count(object, "reasoningTokens") {
                Some(n) => Some(n),
                None => count(object, "reasoning_tokens"),
            };
            return usage;
        }
    }
    Usage::default()
}

impl NdjsonReader {
    /// A reader before the first line.
    pub fn new() -> (r: Self)
        ensures
            r@ == unread(),
    {
        let r = NdjsonReader { events: Vec::new(), usage: Usage::default(), terminal: false };
        assert(r@ =~= unread());
        r
    }

    fn push(&mut self, event: ModelStreamEvent)
        ensures
            final(self)@ == old(self)@.pushed(event@),
    {
        let ghost before = self@;
        self.events.push(event);
        assert(self@ =~= before.pushed(event@));
    }

    fn close(&mut self, event: ModelStreamEvent)
        ensures
            final(self)@ == old(self)@.closed(event@),
    {
        let ghost before = self@;
        self.events.push(event);
        self.terminal = true;
        assert(self@ =~= before.closed(event@));
    }

    fn accept_tool_call(&mut self, object: &JsonObject) -> (r: Result<(), String>)
        ensures
            match r {
                Ok(()) => old(self)@.with_tool_call(object@) == Ok::<NdjsonModel, Seq<char>>(
                    final(self)@,
                ),
                Err(error) => old(self)@.with_tool_call(object@) == Err::<NdjsonModel, Seq<char>>(
                    error@,
                ),
            },
    {
        let id = match string_field(object, "toolCallId", "Command Code tool call") {
            Err(error) => return Err(error),
            Ok(id) => id,
        };
        let name = match string_field(object, "toolName", "Command Code tool call") {
            Err(error) => return Err(error),
            Ok(name) => name,
        };
        let input = match object.get("input") {
            Some(value) => Some(value),
            None => object.get("args"),
        };
        match input {
            Some(value) if value.as_object().is_some() => {
                let arguments = value.to_json_string();
                match ToolCallId::new(id.to_owned()) {
                    Err(_) => Err("Command Code tool call omitted its identifier".to_owned()),
                    Ok(id) => {
                        self.push(
                            ModelStreamEvent::ToolCall(
                                AssistantToolCall {
                                    id,
                                    name: name.to_owned(),
                                    arguments: SerializedJson::new(arguments),
                                },
                            ),
                        );
                        Ok(())
                    },
                }
            },
            _ => Err("Command Code tool call did not contain object input".to_owned()),
        }
    }

    /// Take one event of the response.
    pub fn accept(&mut self, event: &JsonValue) -> (r: Result<(), String>)
        ensures
            match r {
                Ok(()) => old(self)@.with_event(event@) == Ok::<NdjsonModel, Seq<char>>(
                    final(self)@,
                ),
                Err(error) => old(self)@.with_event(event@) == Err::<NdjsonModel, Seq<char>>(
                    error@,
                ),
            },
    {
        let object = match event.as_object() {
            None => {
                return Err("Command Code NDJSON event must be an object".to_owned());
            },
            Some(object) => object,
        };
        let kind = match string_field(object, "type", "Command Code NDJSON event") {
            Err(error) => return Err(error),
            Ok(kind) => kind,
        };
        if self.terminal {
            if same(kind, "provider-metadata") {
                return Ok(());
            }
            return Err(
                "Command Code response contained events after its terminal event".to_owned(),
            );
        }
        if same(kind, "text-delta") {
            match string_field(object, "text", "Command Code text delta") {
                Err(error) => return Err(error),
                Ok(text) => self.push(ModelStreamEvent::TextDelta(text.to_owned())),
            }
        } else if same(kind, "tool-call") {
            return self.accept_tool_call(object);
        } else if same(kind, "finish") {
            let ghost before = self@;
            self.usage = parse_usage(object.get("totalUsage"));
            assert(self@ =~= NdjsonModel { usage: self.usage@, ..before });
            let reason = finish_reason(object.get("finishReason"));
            self.close(ModelStreamEvent::End(reason));
        } else if same(kind, "error") {
            self.close(
                ModelStreamEvent::Error {
                    message: "Command Code provider returned an error".to_owned(),
                },
            );
        } else if same(kind, "abort") {
            self.close(
                ModelStreamEvent::Aborted { message: "Command Code stream aborted".to_owned() },
            );
        }
        Ok(())
    }
}

proof fn lemma_read_prefix(lines: Seq<Seq<char>>, k: int)
    requires
        0 <= k <= lines.len(),
        read_lines(lines.take(k)) is Err,
    ensures
        read_lines(lines) == read_lines(lines.take(k)),
    decreases lines.len() - k,
{
    if k == lines.len() {
        assert(lines.take(k) =~= lines);
    } else {
        assert(lines.take(k + 1).drop_last() =~= lines.take(k));
        lemma_read_prefix(lines, k + 1);
    }
}

/// A response that was read to its terminal event holds that event.
proof fn lemma_terminal_has_event(lines: Seq<Seq<char>>)
    ensures
        read_lines(lines) matches Ok(state) ==> (state.terminal ==> state.events.len() > 0),
    decreases lines.len(),
{
    if lines.len() > 0 {
        lemma_terminal_has_event(lines.drop_last());
    }
}

/// Read a whole NDJSON response.
pub fn parse_ndjson_response(bytes: &[u8]) -> (r: Result<(Vec<ModelStreamEvent>, Usage), String>)
    ensures
        match r {
            Ok((events, usage)) => response_of(bytes@) == Ok::<_, Seq<char>>(
                (crate::model::views(events@), usage@),
            ) && events@.len() > 0,
            Err(error) => response_of(bytes@) == Err::<
                (Seq<StreamEventModel>, UsageModel),
                Seq<char>,
            >(error@),
        },
{
    let text = match decode(bytes) {
        None => {
            return Err("Command Code returned a non-UTF-8 NDJSON response".to_owned());
        },
        Some(text) => text,
    };
    let all = lines(text);
    let ghost whole = crate::model::views(all@);
    let mut reader = NdjsonReader::new();
    let mut i: usize = 0;
    while i < all.len()
        invariant
            i <= all@.len(),
            whole == crate::model::views(all@),
            whole == lines_of(decode_utf8(bytes@)),
            valid_utf8(bytes@),
            read_lines(whole.take(i as int)) == Ok::<NdjsonModel, Seq<char>>(reader@),
        decreases all.len() - i,
    {
        let line = all[i].as_str();
        proof {
            assert(whole.take(i + 1).drop_last() =~= whole.take(i as int));
            assert(whole.take(i + 1).last() == line@);
        }
        if !blank(line) {
            match JsonValue::parse(line) {
                Err(_) => {
                    proof {
                        lemma_read_prefix(whole, i + 1);
                    }
                    return Err("Command Code returned invalid NDJSON".to_owned());
                },
                Ok(event) => {
                    if let Err(error) = reader.accept(&event) {
                        proof {
                            lemma_read_prefix(whole, i + 1);
                        }
                        return Err(error);
                    }
                },
            }
        }
        i = i + 1;
    }
    proof {
        assert(whole.take(i as int) =~= whole);
        lemma_terminal_has_event(whole);
    }
    if reader.terminal {
        Ok((reader.events, reader.usage))
    } else {
        Err("Command Code stream ended without a terminal event".to_owned())
    }
}

/// The body of a remote error never reaches the agent: an error event gives the same stream
/// whatever it carries.
pub proof fn law_error_bodies_are_not_exposed(
    state: NdjsonModel,
    one: Map<Seq<char>, Json>,
    other: Map<Seq<char>, Json>,
)
    requires
        one.contains_key("type"@),
        one["type"@] == Json::String("error"@),
        other.contains_key("type"@),
        other["type"@] == Json::String("error"@),
    ensures
        state.with_event(Json::Object(one)) == state.with_event(Json::Object(other)),
{
    reveal_strlit("error");
    reveal_strlit("text-delta");
    reveal_strlit("tool-call");
    reveal_strlit("finish");
    assert("error"@.len() == 5 && "text-delta"@.len() == 10);
    assert("tool-call"@.len() == 9 && "finish"@.len() == 6);
}

} // verus!
