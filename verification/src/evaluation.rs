//! The coding evaluation.
//!
//! An evaluation drives one prompt of a task through an agent and reports the outcome. The
//! program reads files, spawns the transport and drives the run; its arguments, the check of a
//! task, the payload and the response of a turn, the usage totals, and the report are decided
//! here.

use crate::error::{CoreError, CoreErrorModel};
use crate::event::{AgentEvent, AgentEventKind, EventKindModel, EventModel};
use crate::json::{
    read_bytes, serde_from_slice, serde_from_str, serde_to_string, Json, JsonObject, JsonValue,
    NumberModel,
};
use crate::model::duplicate_all;
use crate::provider::local::{make_system, system_form, tool_form};
use crate::provider::openrouter::{
    choice_events, filled_text_at, parse_choice, parse_usage, usage_of, usage_report, Read,
};
use crate::scheduler::{ModelRequest, ModelStream, ModelStreamEvent, RequestModel, StreamEventModel};
use crate::state::{Message, MessageModel, StopReason, Usage, UsageModel};
use crate::text::{debug_quoted, joined, quoted, same, stands_at, starts_with, TextMap};
use crate::tool::{DefinitionModel, ToolDefinition};
use vstd::prelude::*;

verus! {

broadcast use crate::model::group_views;

/// The arguments of the program.
#[derive(Clone, Debug, Eq, PartialEq)]
pub struct EvaluationArgs {
    /// Model identity.
    pub model: String,
    /// Path of the task.
    pub task_json: String,
    /// Path of the workspace.
    pub workspace: String,
    /// Path of the capability manifest.
    pub capabilities_json: String,
    /// Path of the report.
    pub result_json: String,
    /// Identity of the attempt.
    pub attempt_id: String,
    /// Identity of the baseline.
    pub baseline_id: String,
}

/// Model of [`EvaluationArgs`].
#[verifier::ext_equal]
pub struct ArgsModel {
    pub model: Seq<char>,
    pub task_json: Seq<char>,
    pub workspace: Seq<char>,
    pub capabilities_json: Seq<char>,
    pub result_json: Seq<char>,
    pub attempt_id: Seq<char>,
    pub baseline_id: Seq<char>,
}

impl View for EvaluationArgs {
    type V = ArgsModel;

    open spec fn view(&self) -> ArgsModel {
        ArgsModel {
            model: self.model@,
            task_json: self.task_json@,
            workspace: self.workspace@,
            capabilities_json: self.capabilities_json@,
            result_json: self.result_json@,
            attempt_id: self.attempt_id@,
            baseline_id: self.baseline_id@,
        }
    }
}

/// The values of the flags from one argument on. Each flag has a value and none repeats.
pub open spec fn flags_from(
    args: Seq<Seq<char>>,
    k: int,
    values: Map<Seq<char>, Seq<char>>,
) -> Read<Map<Seq<char>, Seq<char>>>
    decreases args.len() - k,
{
    if k < 0 || k >= args.len() {
        Ok(values)
    } else if !stands_at(args[k], "--"@, 0) {
        Err("unexpected positional argument "@ + debug_quoted(args[k]))
    } else if k + 1 >= args.len() {
        Err("missing value for "@ + args[k])
    } else if values.contains_key(args[k]) {
        Err("evaluation adapter arguments must not repeat flags"@)
    } else {
        flags_from(args, k + 2, values.insert(args[k], args[k + 1]))
    }
}

/// The value of a required flag. An empty value counts as missing.
pub open spec fn flag_value(values: Map<Seq<char>, Seq<char>>, flag: Seq<char>) -> Read<Seq<char>> {
    if values.contains_key(flag) && values[flag].len() > 0 {
        Ok(values[flag])
    } else {
        Err("missing required argument "@ + flag)
    }
}

/// The arguments that flags give.
pub open spec fn read_args(values: Map<Seq<char>, Seq<char>>) -> Read<ArgsModel> {
    match flag_value(values, "--model"@) {
        Err(error) => Err(error),
        Ok(model) => match flag_value(values, "--task-json"@) {
            Err(error) => Err(error),
            Ok(task_json) => match flag_value(values, "--workspace"@) {
                Err(error) => Err(error),
                Ok(workspace) => match flag_value(values, "--capabilities-json"@) {
                    Err(error) => Err(error),
                    Ok(capabilities_json) => match flag_value(values, "--result-json"@) {
                        Err(error) => Err(error),
                        Ok(result_json) => match flag_value(values, "--attempt-id"@) {
                            Err(error) => Err(error),
                            Ok(attempt_id) => match flag_value(values, "--baseline-id"@) {
                                Err(error) => Err(error),
                                Ok(baseline_id) => Ok(
                                    ArgsModel {
                                        model,
                                        task_json,
                                        workspace,
                                        capabilities_json,
                                        result_json,
                                        attempt_id,
                                        baseline_id,
                                    },
                                ),
                            },
                        },
                    },
                },
            },
        },
    }
}

/// The arguments that a command line gives, without the name of the program.
pub open spec fn parsed_args(args: Seq<Seq<char>>) -> Read<ArgsModel> {
    match flags_from(args, 0, Map::empty()) {
        Err(error) => Err(error),
        Ok(values) => read_args(values),
    }
}

fn take(values: &TextMap, flag: &str) -> (r: Result<String, String>)
    ensures
        match r {
            Ok(value) => flag_value(values@, flag@) == Ok::<Seq<char>, Seq<char>>(value@),
            Err(error) => flag_value(values@, flag@) == Err::<Seq<char>, Seq<char>>(error@),
        },
{
    proof {
        reveal_strlit("");
    }
    match values.get(flag) {
        Some(value) => if same(value, "") {
            assert(value@.len() == 0);
            Err(joined("missing required argument ", flag))
        } else {
            proof {
                if value@.len() == 0 {
                    assert(value@ =~= ""@);
                }
            }
            Ok(value.to_owned())
        },
        None => Err(joined("missing required argument ", flag)),
    }
}

impl EvaluationArgs {
    /// Read the arguments of a command line, without the name of the program.
    pub fn parse(arguments: &Vec<String>) -> (r: Result<EvaluationArgs, String>)
        ensures
            match r {
                Ok(args) => parsed_args(crate::model::views(arguments@)) == Ok::<
                    ArgsModel,
                    Seq<char>,
                >(args@),
                Err(error) => parsed_args(crate::model::views(arguments@)) == Err::<
                    ArgsModel,
                    Seq<char>,
                >(error@),
            },
    {
        let ghost all = crate::model::views(arguments@);
        let mut values = TextMap::new();
        let mut k: usize = 0;
        while k < arguments.len()
            invariant
                k <= arguments@.len(),
                all == crate::model::views(arguments@),
                flags_from(all, 0, Map::empty()) == flags_from(all, k as int, values@),
            decreases arguments.len() - k,
        {
            let flag = arguments[k].as_str();
            assert(all[k as int] == flag@);
            if !starts_with(flag, "--") {
                return Err(joined("unexpected positional argument ", quoted(flag).as_str()));
            }
            if arguments.len() - k < 2 {
                return Err(joined("missing value for ", flag));
            }
            assert(all[k + 1] == arguments@[k + 1]@);
            if values.get(flag).is_some() {
                return Err("evaluation adapter arguments must not repeat flags".to_owned());
            }
            values.insert(flag.to_owned(), arguments[k + 1].clone());
            k = k + 2;
        }
        EvaluationArgs::from_flags(&values)
    }

    fn from_flags(values: &TextMap) -> (r: Result<EvaluationArgs, String>)
        ensures
            match r {
                Ok(args) => read_args(values@) == Ok::<ArgsModel, Seq<char>>(args@),
                Err(error) => read_args(values@) == Err::<ArgsModel, Seq<char>>(error@),
            },
    {
        let model = match take(values, "--model") {
            Err(error) => return Err(error),
            Ok(value) => value,
        };
        let task_json = match take(values, "--task-json") {
            Err(error) => return Err(error),
            Ok(value) => value,
        };
        let workspace = match take(values, "--workspace") {
            Err(error) => return Err(error),
            Ok(value) => value,
        };
        let capabilities_json = match take(values, "--capabilities-json") {
            Err(error) => return Err(error),
            Ok(value) => value,
        };
        let result_json = match take(values, "--result-json") {
            Err(error) => return Err(error),
            Ok(value) => value,
        };
        let attempt_id = match take(values, "--attempt-id") {
            Err(error) => return Err(error),
            Ok(value) => value,
        };
        let baseline_id = match take(values, "--baseline-id") {
            Err(error) => return Err(error),
            Ok(value) => value,
        };
        Ok(
            EvaluationArgs {
                model,
                task_json,
                workspace,
                capabilities_json,
                result_json,
                attempt_id,
                baseline_id,
            },
        )
    }
}

/// The prompt of a task whose capabilities are those of the manifest.
pub open spec fn accepted_prompt(task: Json, capabilities: Json) -> Read<Seq<char>> {
    if !(task.get("capabilities"@) matches Some(declared) && declared.alike(capabilities)) {
        Err("evaluation capability manifest does not match task"@)
    } else {
        match filled_text_at(task, "prompt"@) {
            Some(prompt) => Ok(prompt),
            None => Err("evaluation task has no prompt"@),
        }
    }
}

/// The prompt of a task, from the bytes of the task and of the capability manifest.
pub open spec fn task_prompt(task: Seq<u8>, capabilities: Seq<u8>) -> Read<Seq<char>> {
    match serde_from_slice(task) {
        None => Err("evaluation task is not JSON"@),
        Some(task) => match serde_from_slice(capabilities) {
            None => Err("evaluation capabilities are not JSON"@),
            Some(capabilities) => accepted_prompt(task, capabilities),
        },
    }
}

/// Check a task that was read against its manifest, and take its prompt.
pub fn accept_task(task: &JsonValue, capabilities: &JsonValue) -> (r: Result<String, String>)
    ensures
        match r {
            Ok(prompt) => accepted_prompt(task@, capabilities@) == Ok::<Seq<char>, Seq<char>>(
                prompt@,
            ),
            Err(error) => accepted_prompt(task@, capabilities@) == Err::<Seq<char>, Seq<char>>(
                error@,
            ),
        },
{
    let matches = match task.get("capabilities") {
        Some(declared) => declared.equals(capabilities),
        None => false,
    };
    if !matches {
        return Err("evaluation capability manifest does not match task".to_owned());
    }
    proof {
        reveal_strlit("");
    }
    match task.get("prompt") {
        Some(value) => match value.as_str() {
            Some(prompt) => if same(prompt, "") {
                assert(prompt@.len() == 0);
                Err("evaluation task has no prompt".to_owned())
            } else {
                proof {
                    if prompt@.len() == 0 {
                        assert(prompt@ =~= ""@);
                    }
                }
                Ok(prompt.to_owned())
            },
            None => Err("evaluation task has no prompt".to_owned()),
        },
        None => Err("evaluation task has no prompt".to_owned()),
    }
}

/// Read a task and its manifest, check them, and take the prompt.
pub fn read_task(task: &[u8], capabilities: &[u8]) -> (r: Result<String, String>)
    ensures
        match r {
            Ok(prompt) => task_prompt(task@, capabilities@) == Ok::<Seq<char>, Seq<char>>(prompt@),
            Err(error) => task_prompt(task@, capabilities@) == Err::<Seq<char>, Seq<char>>(error@),
        },
{
    match read_bytes(task) {
        None => Err("evaluation task is not JSON".to_owned()),
        Some(task) => match read_bytes(capabilities) {
            None => Err("evaluation capabilities are not JSON".to_owned()),
            Some(capabilities) => accept_task(&task, &capabilities),
        },
    }
}

/// Tools of a request in the wire form. A schema is sent as it reads back from its own text.
pub open spec fn wire_tools(tools: Seq<DefinitionModel>) -> Read<Seq<Json>>
    decreases tools.len(),
{
    if tools.len() == 0 {
        Ok(Seq::empty())
    } else {
        match wire_tools(tools.drop_last()) {
            Err(error) => Err(error),
            Ok(before) => match serde_from_str(serde_to_string(tools.last().schema)) {
                Err(_) => Err("captured tool schema cannot be decoded"@),
                Ok(schema) => Ok(
                    before.push(tool_form(DefinitionModel { schema, ..tools.last() })),
                ),
            },
        }
    }
}

proof fn lemma_wire_prefix(tools: Seq<DefinitionModel>, k: int)
    requires
        0 <= k <= tools.len(),
        wire_tools(tools.take(k)) is Err,
    ensures
        wire_tools(tools) == wire_tools(tools.take(k)),
    decreases tools.len() - k,
{
    if k == tools.len() {
        assert(tools.take(k) =~= tools);
    } else {
        assert(tools.take(k + 1).drop_last() =~= tools.take(k));
        lemma_wire_prefix(tools, k + 1);
    }
}

fn make_tools(tools: &Vec<ToolDefinition>) -> (r: Result<Vec<JsonValue>, String>)
    ensures
        match r {
            Ok(forms) => wire_tools(crate::model::views(tools@)) == Ok::<Seq<Json>, Seq<char>>(
                crate::model::views(forms@),
            ),
            Err(error) => wire_tools(crate::model::views(tools@)) == Err::<Seq<Json>, Seq<char>>(
                error@,
            ),
        },
{
    let ghost all = crate::model::views(tools@);
    let mut forms: Vec<JsonValue> = Vec::new();
    let mut i: usize = 0;
    assert(crate::model::views(forms@) =~= Seq::<Json>::empty());
    while i < tools.len()
        invariant
            i <= tools@.len(),
            all == crate::model::views(tools@),
            wire_tools(all.take(i as int)) == Ok::<Seq<Json>, Seq<char>>(
                crate::model::views(forms@),
            ),
        decreases tools.len() - i,
    {
        let tool = &tools[i];
        proof {
            assert(all.take(i + 1).drop_last() =~= all.take(i as int));
            assert(all.take(i + 1).last() == tool@);
        }
        match JsonValue::parse(tool.schema.to_json_string().as_str()) {
            Err(_) => {
                proof {
                    lemma_wire_prefix(all, i + 1);
                }
                return Err("captured tool schema cannot be decoded".to_owned());
            },
            Ok(schema) => {
                let function = JsonObject::new().with(
                    "name",
                    JsonValue::text(tool.name.as_str()),
                ).with("description", JsonValue::text(tool.description.as_str())).with(
                    "parameters",
                    schema,
                );
                let form = JsonValue::object(
                    JsonObject::new().with("type", JsonValue::text("function")).with(
                        "function",
                        JsonValue::object(function),
                    ),
                );
                forms.push(form);
            },
        }
        i = i + 1;
    }
    assert(all.take(i as int) =~= all);
    Ok(forms)
}

/// The payload of one turn, from the converted conversation.
pub open spec fn payload_of(
    model: Seq<char>,
    max_tokens: u64,
    request: RequestModel,
    messages: Seq<Json>,
) -> Read<Json> {
    match wire_tools(request.tools) {
        Err(error) => Err(error),
        Ok(tools) => {
            let base = map![
                "model"@ => Json::String(model),
                "messages"@ => Json::Array(seq![system_form(request.system_prompt)] + messages),
                "temperature"@ => Json::Number(NumberModel::Int(0)),
                "max_tokens"@ => Json::Number(NumberModel::Int(max_tokens as int)),
                "stream"@ => Json::Bool(false),
            ];
            Ok(
                Json::Object(
                    if tools.len() == 0 {
                        base
                    } else {
                        base.insert("tools"@, Json::Array(tools))
                    },
                ),
            )
        },
    }
}

/// What is sent for one turn.
pub open spec fn sent(model: Seq<char>, max_tokens: u64, request: RequestModel) -> Read<Seq<char>> {
    match serde_from_str(request.context) {
        Ok(Json::Array(messages)) => match payload_of(model, max_tokens, request, messages) {
            Err(error) => Err(error),
            Ok(payload) => Ok(serde_to_string(payload)),
        },
        _ => Err("evaluation transport received invalid converted context"@),
    }
}

/// The payload of one turn, from the converted conversation.
pub fn build_payload(
    model: &str,
    max_tokens: u64,
    request: &ModelRequest,
    conversation: &Vec<JsonValue>,
) -> (r: Result<JsonValue, String>)
    ensures
        ({
            let payload = payload_of(
                model@,
                max_tokens,
                request@,
                crate::model::views(conversation@),
            );
            match r {
                Ok(value) => payload == Ok::<Json, Seq<char>>(value@),
                Err(error) => payload == Err::<Json, Seq<char>>(error@),
            }
        }),
{
    let mut messages: Vec<JsonValue> = Vec::new();
    messages.push(make_system(request.system_prompt.as_str()));
    let mut rest = duplicate_all(conversation);
    messages.append(&mut rest);
    assert(crate::model::views(messages@) =~= seq![system_form(request@.system_prompt)]
        + crate::model::views(conversation@));
    let tools = match make_tools(&request.tools) {
        Err(error) => return Err(error),
        Ok(tools) => tools,
    };
    let payload = JsonObject::new().with("model", JsonValue::text(model)).with(
        "messages",
        JsonValue::array(messages),
    ).with("temperature", JsonValue::unsigned(0)).with(
        "max_tokens",
        JsonValue::unsigned(max_tokens),
    ).with("stream", JsonValue::flag(false));
    if tools.len() == 0 {
        Ok(JsonValue::object(payload))
    } else {
        Ok(JsonValue::object(payload.with("tools", JsonValue::array(tools))))
    }
}

/// The text that is sent for one turn.
pub fn request_payload(model: &str, max_tokens: u64, request: &ModelRequest) -> (r: Result<
    String,
    String,
>)
    ensures
        match r {
            Ok(text) => sent(model@, max_tokens, request@) == Ok::<Seq<char>, Seq<char>>(text@),
            Err(error) => sent(model@, max_tokens, request@) == Err::<Seq<char>, Seq<char>>(error@),
        },
{
    match JsonValue::parse(request.context.as_str()) {
        Err(_) => Err("evaluation transport received invalid converted context".to_owned()),
        Ok(context) => match context.as_array() {
            None => Err("evaluation transport received invalid converted context".to_owned()),
            Some(conversation) => match build_payload(model, max_tokens, request, conversation) {
                Err(error) => Err(error),
                Ok(payload) => Ok(payload.to_json_string()),
            },
        },
    }
}


/// What a response that was read gives: its events and its token counts.
#[verifier::ext_equal]
pub struct CompletionModel {
    pub events: Seq<StreamEventModel>,
    pub usage: UsageModel,
}

/// The completion of a response that was read.
pub open spec fn completion_of(response: Json) -> Read<CompletionModel> {
    if response.get("error"@) is Some {
        Err("OpenRouter rejected the evaluation request"@)
    } else {
        match response.get("choices"@) {
            Some(Json::Array(choices)) if choices.len() > 0 => match choice_events(choices[0]) {
                Err(error) => Err(error),
                Ok(events) => Ok(
                    CompletionModel { events, usage: usage_of(usage_report(response)) },
                ),
            },
            _ => Err("OpenRouter response did not contain a completion choice"@),
        }
    }
}

/// The completion of the bytes of a response.
pub open spec fn response_of(bytes: Seq<u8>) -> Read<CompletionModel> {
    match serde_from_slice(bytes) {
        None => Err("OpenRouter returned a non-JSON evaluation response"@),
        Some(response) => completion_of(response),
    }
}

/// The completion of one turn.
#[derive(Debug)]
pub struct Completion {
    /// Events, the last of which ends the stream.
    pub events: Vec<ModelStreamEvent>,
    /// Token counts.
    pub usage: Usage,
}

impl View for Completion {
    type V = CompletionModel;

    open spec fn view(&self) -> CompletionModel {
        CompletionModel { events: crate::model::views(self.events@), usage: self.usage@ }
    }
}

/// Read the completion of a response.
pub fn parse_completion(response: &JsonValue) -> (r: Result<Completion, String>)
    ensures
        match r {
            Ok(completion) => completion_of(response@) == Ok::<CompletionModel, Seq<char>>(
                completion@,
            ) && completion.events@.len() > 0,
            Err(error) => completion_of(response@) == Err::<CompletionModel, Seq<char>>(error@),
        },
{
    if response.get("error").is_some() {
        return Err("OpenRouter rejected the evaluation request".to_owned());
    }
    let missing = "OpenRouter response did not contain a completion choice";
    let choices = match response.get("choices") {
        None => return Err(missing.to_owned()),
        Some(value) => match value.as_array() {
            None => return Err(missing.to_owned()),
            Some(choices) => choices,
        },
    };
    if choices.len() == 0 {
        return Err(missing.to_owned());
    }
    assert(crate::model::views(choices@)[0] == choices@[0]@);
    let events = match parse_choice(&choices[0]) {
        Err(error) => return Err(error),
        Ok(events) => events,
    };
    let usage = match response.get("usage") {
        Some(usage) => parse_usage(usage),
        None => parse_usage(&JsonValue::null()),
    };
    Ok(Completion { events, usage })
}

/// Read the completion of the bytes of a response.
pub fn parse_openrouter_response(bytes: &[u8]) -> (r: Result<Completion, String>)
    ensures
        match r {
            Ok(completion) => response_of(bytes@) == Ok::<CompletionModel, Seq<char>>(completion@)
                && completion.events@.len() > 0,
            Err(error) => response_of(bytes@) == Err::<CompletionModel, Seq<char>>(error@),
        },
{
    match read_bytes(bytes) {
        None => Err("OpenRouter returned a non-JSON evaluation response".to_owned()),
        Some(response) => parse_completion(&response),
    }
}

/// The sum of two counts, of which a missing one is zero.
pub open spec fn counted(total: Option<u64>, count: Option<u64>) -> int {
    (match total {
        Some(n) => n as int,
        None => 0,
    }) + (match count {
        Some(n) => n as int,
        None => 0,
    })
}

fn count_sum(total: Option<u64>, count: Option<u64>) -> (r: Option<u64>)
    ensures
        match r {
            Some(n) => n == counted(total, count),
            None => counted(total, count) > u64::MAX,
        },
{
    let a: u64 = match total {
        Some(n) => n,
        None => 0,
    };
    let b: u64 = match count {
        Some(n) => n,
        None => 0,
    };
    a.checked_add(b)
}

/// Token counts over all turns.
#[derive(Debug)]
pub struct UsageTotals {
    /// The sums so far.
    pub usage: Usage,
}

impl UsageTotals {
    /// No turns yet.
    pub fn new() -> (r: UsageTotals)
        ensures
            r.usage@ == UsageModel::unreported(),
    {
        UsageTotals { usage: Usage::default() }
    }

    /// Whether the totals can hold the counts of one more turn.
    pub open spec fn spec_fits(self, usage: UsageModel) -> bool {
        &&& counted(self.usage.input_tokens, usage.input_tokens) <= u64::MAX
        &&& counted(self.usage.output_tokens, usage.output_tokens) <= u64::MAX
        &&& counted(self.usage.reasoning_tokens, usage.reasoning_tokens) <= u64::MAX
    }

    /// Whether the totals can hold the counts of one more turn.
    pub fn fits(&self, usage: &Usage) -> (r: bool)
        ensures
            r == self.spec_fits(usage@),
    {
        count_sum(self.usage.input_tokens, usage.input_tokens).is_some() && count_sum(
            self.usage.output_tokens,
            usage.output_tokens,
        ).is_some() && count_sum(self.usage.reasoning_tokens, usage.reasoning_tokens).is_some()
    }

    /// Add the counts of one turn. Counts that were not reported are zero.
    pub fn add(&mut self, usage: &Usage)
        requires
            old(self).spec_fits(usage@),
        ensures
            final(self).usage@ == (UsageModel {
                input_tokens: Some(
                    counted(old(self).usage.input_tokens, usage@.input_tokens) as u64,
                ),
                output_tokens: Some(
                    counted(old(self).usage.output_tokens, usage@.output_tokens) as u64,
                ),
                reasoning_tokens: Some(
                    counted(old(self).usage.reasoning_tokens, usage@.reasoning_tokens) as u64,
                ),
                ..old(self).usage@
            }),
    {
        self.usage.input_tokens = count_sum(self.usage.input_tokens, usage.input_tokens);
        self.usage.output_tokens = count_sum(self.usage.output_tokens, usage.output_tokens);
        self.usage.reasoning_tokens =
            count_sum(self.usage.reasoning_tokens, usage.reasoning_tokens);
    }
}

/// The stream of one turn: the completion, with its usage before the end, or the failure.
pub open spec fn streamed(outcome: Read<CompletionModel>) -> Seq<StreamEventModel> {
    match outcome {
        Err(message) => seq![StreamEventModel::Error { message }],
        Ok(completion) => if completion.usage.input_tokens is Some
            || completion.usage.output_tokens is Some {
            completion.events.drop_last().push(StreamEventModel::Usage(completion.usage)).push(
                completion.events.last(),
            )
        } else {
            completion.events
        },
    }
}

/// The stream of one turn that was cancelled before its request.
pub fn cancelled_stream() -> (r: ModelStream)
    ensures
        r@ == seq![StreamEventModel::End(StopReason::Cancelled)],
{
    let mut events: Vec<ModelStreamEvent> = Vec::new();
    events.push(ModelStreamEvent::End(StopReason::Cancelled));
    assert(crate::model::views(events@) =~= seq![StreamEventModel::End(StopReason::Cancelled)]);
    ModelStream { events }
}

/// The stream of one turn.
pub fn response_stream(outcome: Result<Completion, String>) -> (r: ModelStream)
    requires
        outcome matches Ok(completion) ==> completion.events@.len() > 0,
    ensures
        r@ == streamed(
            match outcome {
                Ok(completion) => Ok(completion@),
                Err(message) => Err(message@),
            },
        ),
{
    match outcome {
        Err(message) => {
            let mut events: Vec<ModelStreamEvent> = Vec::new();
            events.push(ModelStreamEvent::Error { message });
            assert(crate::model::views(events@) =~= seq![
                StreamEventModel::Error { message: message@ },
            ]);
            ModelStream { events }
        },
        Ok(completion) => {
            let mut events = completion.events;
            let usage = completion.usage;
            if usage.input_tokens.is_some() || usage.output_tokens.is_some() {
                let ghost all = events@;
                if let Some(terminal) = events.pop() {
                    assert(crate::model::views(events@) =~= crate::model::views(all).drop_last());
                    events.push(ModelStreamEvent::Usage(usage));
                    events.push(terminal);
                }
            }
            ModelStream { events }
        },
    }
}

/// Name of an event.
pub open spec fn kind_name(kind: EventKindModel) -> Seq<char> {
    match kind {
        EventKindModel::AgentStart => "agent_start"@,
        EventKindModel::TurnStart { .. } => "turn_start"@,
        EventKindModel::MessageStart { .. } => "message_start"@,
        EventKindModel::MessageUpdate { .. } => "message_update"@,
        EventKindModel::MessageEnd { .. } => "message_end"@,
        EventKindModel::ToolExecutionStart { .. } => "tool_execution_start"@,
        EventKindModel::ToolExecutionUpdate { .. } => "tool_execution_update"@,
        EventKindModel::ToolExecutionEnd { .. } => "tool_execution_end"@,
        EventKindModel::ModelTurnUsage { .. } => "model_turn_usage"@,
        EventKindModel::TurnEnd { .. } => "turn_end"@,
        EventKindModel::AgentEnd { .. } => "agent_end"@,
        EventKindModel::CompactionStart { .. } => "compaction_start"@,
        EventKindModel::CompactionResult { .. } => "compaction_result"@,
        EventKindModel::CompactionEnd { .. } => "compaction_end"@,
    }
}

/// Name of an event.
pub fn event_name(event: &AgentEventKind) -> (r: &'static str)
    ensures
        r@ == kind_name(event@),
{
    match event {
        AgentEventKind::AgentStart => "agent_start",
        AgentEventKind::TurnStart { .. } => "turn_start",
        AgentEventKind::MessageStart { .. } => "message_start",
        AgentEventKind::MessageUpdate { .. } => "message_update",
        AgentEventKind::MessageEnd { .. } => "message_end",
        AgentEventKind::ToolExecutionStart { .. } => "tool_execution_start",
        AgentEventKind::ToolExecutionUpdate { .. } => "tool_execution_update",
        AgentEventKind::ToolExecutionEnd { .. } => "tool_execution_end",
        AgentEventKind::ModelTurnUsage { .. } => "model_turn_usage",
        AgentEventKind::TurnEnd { .. } => "turn_end",
        AgentEventKind::AgentEnd { .. } => "agent_end",
        AgentEventKind::CompactionStart { .. } => "compaction_start",
        AgentEventKind::CompactionResult { .. } => "compaction_result",
        AgentEventKind::CompactionEnd { .. } => "compaction_end",
    }
}

/// How a run ended.
pub open spec fn status_name(result: Result<(), CoreErrorModel>) -> Seq<char> {
    match result {
        Ok(()) => "completed"@,
        Err(CoreErrorModel::Cancelled) => "cancelled"@,
        Err(CoreErrorModel::ModelAborted { .. }) => "aborted"@,
        Err(_) => "failed"@,
    }
}

/// The class of a failure.
pub open spec fn code_name(error: CoreErrorModel) -> Seq<char> {
    match error {
        CoreErrorModel::Cancelled => "cancelled"@,
        CoreErrorModel::ModelAborted { .. } => "model_aborted"@,
        CoreErrorModel::ModelError { .. } => "model_error"@,
        CoreErrorModel::ModelProvider { .. } => "model_provider"@,
        CoreErrorModel::UnsupportedModelStream { .. } => "unsupported_model_stream"@,
        CoreErrorModel::Hook { .. } => "hook"@,
        CoreErrorModel::MissingModelProvider => "missing_model_provider"@,
        CoreErrorModel::MissingCompactor => "missing_compactor"@,
        CoreErrorModel::Compaction(_) => "compaction"@,
        CoreErrorModel::ActiveRun { .. } => "active_run"@,
        CoreErrorModel::InvalidTransition(_) => "invalid_transition"@,
        CoreErrorModel::RunFinished { .. } => "run_finished"@,
    }
}

/// The outcome of a run, with the model of its error.
pub open spec fn outcome_model(result: Result<(), CoreError>) -> Result<(), CoreErrorModel> {
    match result {
        Ok(()) => Ok(()),
        Err(error) => Err(error@),
    }
}

/// How a run ended.
pub fn terminal_status(result: &Result<(), CoreError>) -> (r: &'static str)
    ensures
        r@ == status_name(outcome_model(*result)),
{
    match result {
        Ok(()) => "completed",
        Err(CoreError::Cancelled) => "cancelled",
        Err(CoreError::ModelAborted { .. }) => "aborted",
        Err(_) => "failed",
    }
}

/// A redacted failure class. It is not the provider's message: reports must not retain
/// arbitrary provider payloads or credentials.
pub fn terminal_code(result: &Result<(), CoreError>) -> (r: Option<&'static str>)
    ensures
        match outcome_model(*result) {
            Ok(()) => r is None,
            Err(error) => r matches Some(code) && code@ == code_name(error),
        },
{
    match result {
        Ok(()) => None,
        Err(CoreError::Cancelled) => Some("cancelled"),
        Err(CoreError::ModelAborted { .. }) => Some("model_aborted"),
        Err(CoreError::ModelError { .. }) => Some("model_error"),
        Err(CoreError::ModelProvider { .. }) => Some("model_provider"),
        Err(CoreError::UnsupportedModelStream { .. }) => Some("unsupported_model_stream"),
        Err(CoreError::Hook(_)) => Some("hook"),
        Err(CoreError::MissingModelProvider) => Some("missing_model_provider"),
        Err(CoreError::MissingCompactor) => Some("missing_compactor"),
        Err(CoreError::Compaction(_)) => Some("compaction"),
        Err(CoreError::ActiveRun { .. }) => Some("active_run"),
        Err(CoreError::InvalidTransition(_)) => Some("invalid_transition"),
        Err(CoreError::RunFinished { .. }) => Some("run_finished"),
    }
}

/// The text of the last assistant message, or nothing.
pub open spec fn last_text(messages: Seq<MessageModel>) -> Seq<char>
    decreases messages.len(),
{
    if messages.len() == 0 {
        Seq::empty()
    } else {
        match messages.last() {
            MessageModel::Assistant { content, .. } => content,
            _ => last_text(messages.drop_last()),
        }
    }
}

/// The text of the last assistant message, or nothing.
pub fn final_text(messages: &Vec<Message>) -> (r: String)
    ensures
        r@ == last_text(crate::model::views(messages@)),
{
    let ghost all = crate::model::views(messages@);
    let mut i: usize = messages.len();
    assert(all.take(i as int) =~= all);
    while i > 0
        invariant
            i <= messages@.len(),
            all == crate::model::views(messages@),
            last_text(all) == last_text(all.take(i as int)),
        decreases i,
    {
        proof {
            assert(all.take(i as int).drop_last() =~= all.take(i - 1));
            assert(all.take(i as int).last() == messages@[i - 1]@);
        }
        if let Message::Assistant { content, .. } = &messages[i - 1] {
            return content.clone();
        }
        i = i - 1;
    }
    let none = String::new();
    assert(none@ =~= Seq::<char>::empty());
    none
}

/// How many events satisfy a predicate.
pub open spec fn how_many(events: Seq<EventModel>, which: spec_fn(EventKindModel) -> bool) -> nat
    decreases events.len(),
{
    if events.len() == 0 {
        0
    } else {
        how_many(events.drop_last(), which) + if which(events.last().kind) {
            1nat
        } else {
            0nat
        }
    }
}

/// The trace of a run: the number and the name of each event.
pub open spec fn trace_of(events: Seq<EventModel>) -> Seq<Json> {
    events.map_values(
        |event: EventModel|
            Json::Object(
                map![
                    "seq"@ => Json::Number(NumberModel::Int(event.sequence.0 as int)),
                    "type"@ => Json::String(kind_name(event.kind)),
                ],
            ),
    )
}

/// A count that may be missing.
pub open spec fn or_zero(count: Option<u64>) -> int {
    match count {
        Some(n) => n as int,
        None => 0,
    }
}

/// The usage part of a report.
pub open spec fn usage_json(usage: UsageModel) -> Json {
    Json::Object(
        map![
            "input"@ => Json::Number(NumberModel::Int(or_zero(usage.input_tokens))),
            "output"@ => Json::Number(NumberModel::Int(or_zero(usage.output_tokens))),
            "cache_read"@ => Json::Number(NumberModel::Int(0)),
            "cache_write"@ => Json::Number(NumberModel::Int(0)),
        ],
    )
}

/// The terminal part of a report.
pub open spec fn terminal_json(result: Result<(), CoreErrorModel>) -> Json {
    Json::Object(
        map![
            "status"@ => Json::String(status_name(result)),
            "code"@ => match result {
                Ok(()) => Json::Null,
                Err(error) => Json::String(code_name(error)),
            },
        ],
    )
}

/// The report of an attempt.
pub open spec fn report_json(
    args: ArgsModel,
    result: Result<(), CoreErrorModel>,
    messages: Seq<MessageModel>,
    events: Seq<EventModel>,
    usage: UsageModel,
) -> Json {
    Json::Object(
        map![
            "schema_version"@ => Json::String("pi-coding-eval-result/v0"@),
            "attempt_id"@ => Json::String(args.attempt_id),
            "baseline_id"@ => Json::String(args.baseline_id),
            "terminal"@ => terminal_json(result),
            "final_text"@ => Json::String(last_text(messages)),
            "turns"@ => Json::Number(
                NumberModel::Int(how_many(events, |k: EventKindModel| k is TurnStart) as int),
            ),
            "tool_calls"@ => Json::Number(
                NumberModel::Int(
                    how_many(events, |k: EventKindModel| k is ToolExecutionStart) as int,
                ),
            ),
            "usage"@ => usage_json(usage),
            "trace"@ => Json::Array(trace_of(events)),
        ],
    )
}

fn trace(events: &Vec<AgentEvent>) -> (r: Vec<JsonValue>)
    ensures
        crate::model::views(r@) == trace_of(crate::model::views(events@)),
{
    let ghost all = trace_of(crate::model::views(events@));
    let mut out: Vec<JsonValue> = Vec::new();
    let mut i: usize = 0;
    assert(crate::model::views(out@) =~= all.take(0));
    while i < events.len()
        invariant
            i <= events@.len(),
            all == trace_of(crate::model::views(events@)),
            crate::model::views(out@) == all.take(i as int),
        decreases events.len() - i,
    {
        let event = &events[i];
        let entry = JsonValue::object(
            JsonObject::new().with("seq", JsonValue::unsigned(event.sequence.0)).with(
                "type",
                JsonValue::text(event_name(&event.kind)),
            ),
        );
        out.push(entry);
        i = i + 1;
        proof {
            assert(crate::model::views(events@)[i - 1] == event@);
            assert(all[i - 1] == entry@);
            assert(crate::model::views(out@) =~= all.take(i as int));
        }
    }
    assert(all.take(i as int) =~= all);
    out
}

fn count_turns(events: &Vec<AgentEvent>) -> (r: u64)
    ensures
        r == how_many(crate::model::views(events@), |k: EventKindModel| k is TurnStart),
{
    let ghost all = crate::model::views(events@);
    let ghost which = |k: EventKindModel| k is TurnStart;
    let mut count: u64 = 0;
    let mut i: usize = 0;
    while i < events.len()
        invariant
            i <= events@.len(),
            all == crate::model::views(events@),
            which == (|k: EventKindModel| k is TurnStart),
            count == how_many(all.take(i as int), which),
            count <= i,
        decreases events.len() - i,
    {
        proof {
            assert(all.take(i + 1).drop_last() =~= all.take(i as int));
            assert(all.take(i + 1).last() == events@[i as int]@);
        }
        if let AgentEventKind::TurnStart { .. } = &events[i].kind {
            count = count + 1;
        }
        i = i + 1;
    }
    assert(all.take(i as int) =~= all);
    count
}

fn count_calls(events: &Vec<AgentEvent>) -> (r: u64)
    ensures
        r == how_many(crate::model::views(events@), |k: EventKindModel| k is ToolExecutionStart),
{
    let ghost all = crate::model::views(events@);
    let ghost which = |k: EventKindModel| k is ToolExecutionStart;
    let mut count: u64 = 0;
    let mut i: usize = 0;
    while i < events.len()
        invariant
            i <= events@.len(),
            all == crate::model::views(events@),
            which == (|k: EventKindModel| k is ToolExecutionStart),
            count == how_many(all.take(i as int), which),
            count <= i,
        decreases events.len() - i,
    {
        proof {
            assert(all.take(i + 1).drop_last() =~= all.take(i as int));
            assert(all.take(i + 1).last() == events@[i as int]@);
        }
        if let AgentEventKind::ToolExecutionStart { .. } = &events[i].kind {
            count = count + 1;
        }
        i = i + 1;
    }
    assert(all.take(i as int) =~= all);
    count
}

/// The report of an attempt.
pub fn report(
    args: &EvaluationArgs,
    result: &Result<(), CoreError>,
    messages: &Vec<Message>,
    events: &Vec<AgentEvent>,
    totals: &UsageTotals,
) -> (r: JsonValue)
    ensures
        r@ == report_json(
            args@,
            outcome_model(*result),
            crate::model::views(messages@),
            crate::model::views(events@),
            totals.usage@,
        ),
{
    let code = match terminal_code(result) {
        Some(code) => JsonValue::text(code),
        None => JsonValue::null(),
    };
    let terminal = JsonObject::new().with("status", JsonValue::text(terminal_status(result))).with(
        "code",
        code,
    );
    let input: u64 = match totals.usage.input_tokens {
        Some(n) => n,
        None => 0,
    };
    let output: u64 = match totals.usage.output_tokens {
        Some(n) => n,
        None => 0,
    };
    let usage = JsonObject::new().with("input", JsonValue::unsigned(input)).with(
        "output",
        JsonValue::unsigned(output),
    ).with("cache_read", JsonValue::unsigned(0)).with("cache_write", JsonValue::unsigned(0));
    JsonValue::object(
        JsonObject::new().with("schema_version", JsonValue::text("pi-coding-eval-result/v0")).with(
            "attempt_id",
            JsonValue::text(args.attempt_id.as_str()),
        ).with("baseline_id", JsonValue::text(args.baseline_id.as_str())).with(
            "terminal",
            JsonValue::object(terminal),
        ).with("final_text", JsonValue::text(final_text(messages).as_str())).with(
            "turns",
            JsonValue::unsigned(count_turns(events)),
        ).with("tool_calls", JsonValue::unsigned(count_calls(events))).with(
            "usage",
            JsonValue::object(usage),
        ).with("trace", JsonValue::array(trace(events))),
    )
}

/// A report does not carry the text of a failure: runs whose failures differ only in their
/// messages are reported alike.
pub proof fn law_reports_hide_provider_messages(
    args: ArgsModel,
    first: Seq<char>,
    second: Seq<char>,
    messages: Seq<MessageModel>,
    events: Seq<EventModel>,
    usage: UsageModel,
)
    ensures
        report_json(
            args,
            Err(CoreErrorModel::ModelProvider { message: first }),
            messages,
            events,
            usage,
        ) == report_json(
            args,
            Err(CoreErrorModel::ModelProvider { message: second }),
            messages,
            events,
            usage,
        ),
        report_json(
            args,
            Err(CoreErrorModel::ModelError { message: first }),
            messages,
            events,
            usage,
        ) == report_json(
            args,
            Err(CoreErrorModel::ModelError { message: second }),
            messages,
            events,
            usage,
        ),
        report_json(
            args,
            Err(CoreErrorModel::ModelAborted { message: first }),
            messages,
            events,
            usage,
        ) == report_json(
            args,
            Err(CoreErrorModel::ModelAborted { message: second }),
            messages,
            events,
            usage,
        ),
{
}

} // verus!
