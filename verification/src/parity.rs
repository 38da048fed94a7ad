//! Runs of declarative parity fixtures.
//!
//! The host drives the runs of a [`Fixture`]. What the scripted provider, tools and hooks
//! answer, which agent operation an action is, how events and messages are normalized, and
//! the canonical result are decided here.

use crate::agent::{
    after_tail, contents, counted, no_continuation, owner, prompts, refusal, started,
    tail_messages, upcoming_run, Agent, AgentBuilder, AgentModel, BuilderModel,
};
use crate::error::{CoreError, CoreErrorModel, SchedulerError, ToolError, ToolErrorModel};
use crate::event::{AgentEvent, AgentEventKind, EventKindModel, EventModel};
use crate::fixture::{
    ActionModel, BlockModel, Fixture, FixtureAction, FixtureAfterToolReplace,
    FixtureBeforeToolBlock, FixtureModel, FixtureToolResponse, FixtureTurn, FixtureUsage, Read,
    ReplaceModel, ResponseModel, SpecModel, TurnScript,
};
use crate::hooks::{AfterModel, AfterToolCall, BeforeModel, BeforeToolCall, Replacement};
use crate::json::{serde_from_str, Json, JsonObject, JsonValue, NumberModel};
use crate::model::Duplicate;
use crate::queue::QueuesModel;
use crate::run::RunHandle;
use crate::scheduler::{ModelStream, StreamEventModel};
use crate::state::{
    saturating_sum, AgentPhase, AgentSnapshot, AssistantToolCall, CallModel, Message, MessageModel,
    ModelDescriptor, ModelDescriptorModel, StopReason, ThinkingLevel, ToolCallId,
};
use crate::text::same;
use crate::tool::{
    inserted, DefinitionModel, ToolCall, ToolDefinition, ToolResult, ToolResultModel, ToolUpdate,
    ToolUpdateModel,
};
use crate::transition::RunModel;
use vstd::prelude::*;

verus! {

broadcast use crate::model::group_views;

/// Hook decisions of a fixture.
#[derive(Debug)]
pub struct FixtureHooks {
    /// Blocking rule.
    pub before_tool_block: Option<FixtureBeforeToolBlock>,
    /// Replacing rule.
    pub after_tool_replace: Option<FixtureAfterToolReplace>,
}

/// What a blocking rule says of a call.
pub open spec fn blocks(rule: Option<BlockModel>, name: Seq<char>) -> BeforeModel {
    match rule {
        Some(rule) => if rule.tool_name == name {
            BeforeModel::Block { reason: rule.reason }
        } else {
            BeforeModel::Allow
        },
        None => BeforeModel::Allow,
    }
}

/// What a replacing rule says of a call.
pub open spec fn replaces(rule: Option<ReplaceModel>, name: Seq<char>) -> AfterModel {
    match rule {
        Some(rule) => if rule.tool_name == name {
            AfterModel {
                content: Replacement::Replace(rule.content),
                is_error: Replacement::Replace(rule.is_error),
                ..AfterModel::keep_all()
            }
        } else {
            AfterModel::keep_all()
        },
        None => AfterModel::keep_all(),
    }
}

impl FixtureHooks {
    /// Decide whether a call may run.
    pub fn before_tool_call(&self, call: &ToolCall) -> (r: BeforeToolCall)
        ensures
            r@ == blocks(crate::model::opt_view(self.before_tool_block), call@.name),
    {
        match &self.before_tool_block {
            Some(rule) => if same(rule.tool_name.as_str(), call.name.as_str()) {
                BeforeToolCall::Block { reason: rule.reason.clone() }
            } else {
                BeforeToolCall::Allow
            },
            None => BeforeToolCall::Allow,
        }
    }

    /// Decide what becomes of a call's result.
    pub fn after_tool_call(&self, call: &ToolCall) -> (r: AfterToolCall)
        ensures
            r@ == replaces(crate::model::opt_view(self.after_tool_replace), call@.name),
    {
        let mut after = AfterToolCall::default();
        if let Some(rule) = &self.after_tool_replace {
            if same(rule.tool_name.as_str(), call.name.as_str()) {
                after.content = Replacement::Replace(rule.content.clone());
                after.is_error = Replacement::Replace(rule.is_error);
            }
        }
        after
    }
}

/// The scripted model.
#[derive(Debug)]
pub struct FixtureProvider {
    streams: Vec<ModelStream>,
}

impl View for FixtureProvider {
    type V = Seq<Seq<StreamEventModel>>;

    closed spec fn view(&self) -> Seq<Seq<StreamEventModel>> {
        crate::model::views(self.streams@)
    }
}

/// The streams of scripted turns.
pub open spec fn streams_of(turns: Seq<TurnScript>) -> Seq<Seq<StreamEventModel>> {
    turns.map_values(|turn: TurnScript| turn.events)
}

impl FixtureProvider {
    /// A model that streams the turns of a script in order.
    pub fn new(turns: &Vec<FixtureTurn>) -> (r: FixtureProvider)
        ensures
            r@ == streams_of(crate::model::views(turns@)),
    {
        let mut streams: Vec<ModelStream> = Vec::new();
        let ghost all = streams_of(crate::model::views(turns@));
        let mut i: usize = 0;
        assert(crate::model::views(streams@) =~= all.take(0));
        while i < turns.len()
            invariant
                i <= turns@.len(),
                all == streams_of(crate::model::views(turns@)),
                crate::model::views(streams@) == all.take(i as int),
            decreases turns.len() - i,
        {
            streams.push(turns[i].stream.duplicate());
            i = i + 1;
            assert(crate::model::views(streams@) =~= all.take(i as int));
        }
        assert(all.take(i as int) =~= all);
        FixtureProvider { streams }
    }

    /// Stream the next turn.
    pub fn stream(&mut self) -> (r: Result<ModelStream, SchedulerError>)
        ensures
            match r {
                Ok(stream) => old(self)@.len() > 0 && stream@ == old(self)@[0] && final(self)@
                    == old(self)@.drop_first(),
                Err(SchedulerError::UnknownToolCall { tool_call_id }) => old(self)@.len() == 0
                    && tool_call_id@ == "fixture-exhausted-model-script"@ && final(self)@ == old(
                    self,
                )@,
                Err(_) => false,
            },
    {
        if self.streams.len() == 0 {
            let id = "fixture-exhausted-model-script".to_owned();
            proof {
                reveal_strlit("fixture-exhausted-model-script");
            }
            return Err(SchedulerError::UnknownToolCall { tool_call_id: ToolCallId::new(id).unwrap() });
        }
        let ghost before = self.streams@;
        let stream = self.streams.remove(0);
        assert(crate::model::views(self.streams@) =~= crate::model::views(before).drop_first());
        Ok(stream)
    }

    /// Whether every turn was streamed.
    pub fn is_empty(&self) -> (r: bool)
        ensures
            r == (self@.len() == 0),
    {
        self.streams.len() == 0
    }
}

/// A scripted tool.
#[derive(Debug)]
pub struct FixtureTool {
    responses: Vec<FixtureToolResponse>,
}

impl View for FixtureTool {
    type V = Seq<ResponseModel>;

    closed spec fn view(&self) -> Seq<ResponseModel> {
        crate::model::views(self.responses@)
    }
}

/// Index of the first response to some arguments, or the number of responses.
pub open spec fn response_index(responses: Seq<ResponseModel>, arguments: Seq<char>) -> int
    decreases responses.len(),
{
    if responses.len() == 0 || responses[0].arguments == arguments {
        0
    } else {
        1 + response_index(responses.drop_first(), arguments)
    }
}

/// How a scripted tool answers a call.
#[derive(Debug)]
pub struct FixtureReply {
    /// Updates before the result.
    pub updates: Vec<ToolUpdate>,
    /// Whether another tool runs first.
    pub yield_once: bool,
    /// The result.
    pub result: Result<ToolResult, ToolError>,
}

/// The updates of a response.
pub open spec fn updates_of(texts: Seq<Seq<char>>) -> Seq<ToolUpdateModel> {
    texts.map_values(|text: Seq<char>| ToolUpdateModel { content: text, details: None })
}

/// The result of a response.
pub open spec fn result_of(response: ResponseModel, id: Seq<char>) -> ToolResultModel {
    ToolResultModel {
        tool_call_id: id,
        content: response.content,
        details: None,
        is_error: response.is_error,
        usage: None,
        added_tool_names: Seq::empty(),
        terminate: false,
    }
}

impl FixtureReply {
    /// Whether this is how a tool with some responses answers a call.
    pub open spec fn answers(self, responses: Seq<ResponseModel>, call: CallModel) -> bool {
        let i = response_index(responses, call.arguments);
        if i < responses.len() {
            &&& crate::model::views(self.updates@) == updates_of(responses[i].updates)
            &&& self.yield_once == responses[i].yield_once
            &&& self.result matches Ok(result) && result@ == result_of(responses[i], call.id)
        } else {
            &&& self.updates@.len() == 0
            &&& !self.yield_once
            &&& self.result matches Err(error) && error@ == (ToolErrorModel::Execution {
                tool: call.name,
                message: "fixture has no matching host tool response"@,
            })
        }
    }
}

/// The responses left after a call: the one that answered it is used up.
pub open spec fn left_after(responses: Seq<ResponseModel>, arguments: Seq<char>) -> Seq<
    ResponseModel,
> {
    let i = response_index(responses, arguments);
    if i < responses.len() {
        responses.remove(i)
    } else {
        responses
    }
}

proof fn lemma_response_index(responses: Seq<ResponseModel>, arguments: Seq<char>, k: int)
    requires
        0 <= k <= responses.len(),
        forall|i: int| 0 <= i < k ==> (#[trigger] responses[i]).arguments != arguments,
        k < responses.len() ==> responses[k].arguments == arguments,
    ensures
        response_index(responses, arguments) == k,
    decreases responses.len(),
{
    if k > 0 {
        assert(responses[0].arguments != arguments);
        let rest = responses.drop_first();
        assert forall|i: int| 0 <= i < k - 1 implies (#[trigger] rest[i]).arguments
            != arguments by {
            assert(rest[i] == responses[i + 1]);
        }
        lemma_response_index(rest, arguments, k - 1);
    }
}

impl FixtureTool {
    /// A tool with scripted responses.
    pub fn new(responses: Vec<FixtureToolResponse>) -> (r: FixtureTool)
        ensures
            r@ == crate::model::views(responses@),
    {
        FixtureTool { responses }
    }

    /// Answer a call with the first response to its arguments, and use that response up.
    pub fn execute(&mut self, call: ToolCall) -> (r: FixtureReply)
        ensures
            r.answers(old(self)@, call@),
            final(self)@ == left_after(old(self)@, call@.arguments),
    {
        let ghost all = self@;
        let mut i: usize = 0;
        while i < self.responses.len() && !same(
            self.responses[i].arguments.as_str(),
            call.arguments.as_str(),
        )
            invariant
                i <= self.responses@.len(),
                all == self@,
                forall|k: int| 0 <= k < i ==> (#[trigger] all[k]).arguments != call@.arguments,
            decreases self.responses.len() - i,
        {
            assert(all[i as int] == self.responses@[i as int]@);
            i = i + 1;
        }
        proof {
            assert(i < all.len() ==> all[i as int] == self.responses@[i as int]@);
            lemma_response_index(all, call@.arguments, i as int);
        }
        if i < self.responses.len() {
            let ghost before = self.responses@;
            let response = self.responses.remove(i);
            assert(crate::model::views(self.responses@) =~= crate::model::views(before).remove(
                i as int,
            ));
            let mut updates: Vec<ToolUpdate> = Vec::new();
            let ghost texts = crate::model::views(response.updates@);
            let mut j: usize = 0;
            assert(crate::model::views(updates@) =~= updates_of(texts).take(0));
            while j < response.updates.len()
                invariant
                    j <= response.updates@.len(),
                    texts == crate::model::views(response.updates@),
                    crate::model::views(updates@) == updates_of(texts).take(j as int),
                decreases response.updates.len() - j,
            {
                updates.push(ToolUpdate { content: response.updates[j].clone(), details: None });
                j = j + 1;
                assert(crate::model::views(updates@) =~= updates_of(texts).take(j as int));
            }
            assert(updates_of(texts).take(j as int) =~= updates_of(texts));
            let result = ToolResult {
                tool_call_id: call.id,
                content: response.content,
                details: None,
                is_error: response.is_error,
                usage: None,
                added_tool_names: Vec::new(),
                terminate: false,
            };
            assert(result@ =~= result_of(all[i as int], call@.id));
            FixtureReply { updates, yield_once: response.yield_once, result: Ok(result) }
        } else {
            FixtureReply {
                updates: Vec::new(),
                yield_once: false,
                result: Err(
                    ToolError::Execution {
                        tool: call.name,
                        message: "fixture has no matching host tool response".to_owned(),
                    },
                ),
            }
        }
    }
}


/// The outcome of starting a prompt: the agent after it, and the run or the refusal.
pub open spec fn prompted(agent: AgentModel, prompt: Seq<char>) -> (
    AgentModel,
    Result<RunModel, CoreErrorModel>,
) {
    if owner(agent.state.phase) is None {
        (
            started(agent, seq![prompt]),
            Ok(
                RunModel::created(
                    upcoming_run(agent),
                    prompts(seq![prompt], agent.state.next_message_id),
                    agent.state.messages.len(),
                    false,
                ),
            ),
        )
    } else {
        (counted(agent), Err(refusal(agent)))
    }
}

/// The outcome of starting a continuation.
pub open spec fn continued(agent: AgentModel) -> (AgentModel, Result<RunModel, CoreErrorModel>) {
    let n = agent.state.messages.len();
    if owner(agent.state.phase) is Some {
        (agent, Err(refusal(agent)))
    } else if n == 0 {
        (agent, Err(no_continuation("empty"@)))
    } else if !(agent.state.messages[n - 1] is Assistant) {
        (
            started(agent, Seq::empty()),
            Ok(RunModel::created(upcoming_run(agent), Seq::empty(), n, false)),
        )
    } else if tail_messages(agent).len() == 0 {
        (after_tail(agent), Err(no_continuation("assistant-tail"@)))
    } else {
        let texts = contents(tail_messages(agent));
        (
            started(after_tail(agent), texts),
            Ok(
                RunModel::created(
                    upcoming_run(agent),
                    prompts(texts, agent.state.next_message_id),
                    n,
                    true,
                ),
            ),
        )
    }
}

/// The one fixture path that the program was given.
pub fn single_fixture_path(arguments: &Vec<String>) -> (r: Result<String, String>)
    ensures
        arguments@.len() == 1 ==> (r matches Ok(path) && path@ == arguments@[0]@),
        arguments@.len() != 1 ==> (r matches Err(e) && e@
            == "expected exactly one declarative fixture path"@),
{
    if arguments.len() == 1 {
        Ok(arguments[0].clone())
    } else {
        Err("expected exactly one declarative fixture path".to_owned())
    }
}

/// Perform one action of the user. A run that it starts is handed back to be driven.
pub fn act(agent: &mut Agent, action: FixtureAction) -> (r: Result<Option<RunHandle>, CoreError>)
    ensures
        match action@ {
            ActionModel::Steer(text) => {
                &&& r matches Ok(run) && run is None
                &&& final(agent)@ == (AgentModel {
                    queues: QueuesModel {
                        steering: old(agent)@.queues.steering.pushed(text),
                        ..old(agent)@.queues
                    },
                    ..old(agent)@
                })
            },
            ActionModel::FollowUp(text) => {
                &&& r matches Ok(run) && run is None
                &&& final(agent)@ == (AgentModel {
                    queues: QueuesModel {
                        follow_up: old(agent)@.queues.follow_up.pushed(text),
                        ..old(agent)@.queues
                    },
                    ..old(agent)@
                })
            },
            ActionModel::Prompt(text) => {
                let outcome = prompted(old(agent)@, text);
                &&& final(agent)@ == outcome.0
                &&& match r {
                    Ok(Some(run)) => run.wf() && outcome.1 == Ok::<RunModel, CoreErrorModel>(run@),
                    Ok(None) => false,
                    Err(error) => outcome.1 == Err::<RunModel, CoreErrorModel>(error@),
                }
            },
            ActionModel::Continue => {
                let outcome = continued(old(agent)@);
                &&& final(agent)@ == outcome.0
                &&& match r {
                    Ok(Some(run)) => run.wf() && outcome.1 == Ok::<RunModel, CoreErrorModel>(run@),
                    Ok(None) => false,
                    Err(error) => outcome.1 == Err::<RunModel, CoreErrorModel>(error@),
                }
            },
        },
{
    match action {
        FixtureAction::Steer(input) => match agent.enqueue_steering(input) {
            Ok(_) => Ok(None),
            Err(error) => Err(error),
        },
        FixtureAction::FollowUp(input) => match agent.enqueue_follow_up(input) {
            Ok(_) => Ok(None),
            Err(error) => Err(error),
        },
        FixtureAction::Prompt(input) => match agent.start_prompt(input) {
            Ok(run) => Ok(Some(run)),
            Err(error) => Err(error),
        },
        FixtureAction::Continue => match agent.start_continue() {
            Ok(run) => Ok(Some(run)),
            Err(error) => Err(error),
        },
    }
}

/// The tools that an agent of a fixture has.
pub open spec fn defined_tools(tools: Seq<SpecModel>) -> Read<Seq<DefinitionModel>>
    decreases tools.len(),
{
    if tools.len() == 0 {
        Ok(Seq::empty())
    } else {
        match defined_tools(tools.drop_last()) {
            Err(error) => Err(error),
            Ok(before) => match serde_from_str(tools.last().parameters) {
                Err(error) => Err(error),
                Ok(schema) => Ok(
                    inserted(
                        before,
                        DefinitionModel {
                            name: tools.last().name,
                            description: tools.last().description,
                            schema,
                            execution_mode: tools.last().execution_mode,
                        },
                    ),
                ),
            },
        }
    }
}

proof fn lemma_defined_prefix(tools: Seq<SpecModel>, k: int)
    requires
        0 <= k <= tools.len(),
        defined_tools(tools.take(k)) is Err,
    ensures
        defined_tools(tools) == defined_tools(tools.take(k)),
    decreases tools.len() - k,
{
    if k == tools.len() {
        assert(tools.take(k) =~= tools);
    } else {
        assert(tools.take(k + 1).drop_last() =~= tools.take(k));
        lemma_defined_prefix(tools, k + 1);
    }
}

/// The configuration of a fixture's agent, but for its tools.
pub open spec fn configured(fixture: FixtureModel, tools: Seq<DefinitionModel>) -> BuilderModel {
    BuilderModel {
        system_prompt: fixture.system_prompt,
        model: Some(
            ModelDescriptorModel {
                provider: fixture.provider,
                model: fixture.model,
                revision: None,
            },
        ),
        thinking_level: fixture.thinking_level,
        steering: fixture.steering_mode,
        follow_up: fixture.follow_up_mode,
        provider: true,
        tools,
        ..BuilderModel::fresh()
    }
}

/// The agent of a fixture, to be driven with the fixture's provider, tools and hooks.
pub fn build_agent(fixture: &Fixture) -> (r: Result<Agent, String>)
    ensures
        match r {
            Ok(agent) => agent.wf() && defined_tools(fixture@.tools) is Ok && agent@ == configured(
                fixture@,
                defined_tools(fixture@.tools)->Ok_0,
            ).built(),
            Err(error) => defined_tools(fixture@.tools) == Err::<Seq<DefinitionModel>, Seq<char>>(
                error@,
            ),
        },
{
    let mut builder = AgentBuilder::default().system_prompt(fixture.system_prompt.clone()).model(
        ModelDescriptor {
            provider: fixture.provider.clone(),
            model: fixture.model.clone(),
            revision: None,
        },
    ).thinking_level(fixture.thinking_level).steering_mode(fixture.steering_mode).follow_up_mode(
        fixture.follow_up_mode,
    ).model_provider();
    let ghost all = fixture@.tools;
    assert(builder@ =~= configured(fixture@, Seq::empty()));
    let mut i: usize = 0;
    while i < fixture.tools.len()
        invariant
            i <= fixture.tools@.len(),
            all == fixture@.tools,
            builder.wf(),
            defined_tools(all.take(i as int)) is Ok,
            builder@ == configured(fixture@, defined_tools(all.take(i as int))->Ok_0),
        decreases fixture.tools.len() - i,
    {
        proof {
            assert(all.take(i + 1).drop_last() =~= all.take(i as int));
            assert(all.take(i + 1).last() == fixture.tools@[i as int]@);
        }
        let tool = &fixture.tools[i];
        match JsonValue::parse(tool.parameters.as_str()) {
            Err(error) => {
                proof {
                    lemma_defined_prefix(all, i + 1);
                }
                return Err(error.message);
            },
            Ok(schema) => {
                builder = builder.tool(
                    ToolDefinition {
                        name: tool.name.clone(),
                        description: tool.description.clone(),
                        schema,
                        execution_mode: tool.execution_mode,
                    },
                );
                assert(builder@ =~= configured(
                    fixture@,
                    defined_tools(all.take(i + 1))->Ok_0,
                ));
            },
        }
        i = i + 1;
    }
    assert(all.take(i as int) =~= all);
    Ok(builder.build())
}

/// Name of a message's role.
pub open spec fn role_name(message: MessageModel) -> Seq<char> {
    match message {
        MessageModel::User { .. } => "user"@,
        MessageModel::Assistant { .. } => "assistant"@,
        MessageModel::ToolResult { .. } => "tool_result"@,
    }
}

/// Text of a message.
pub open spec fn text_of_message(message: MessageModel) -> Seq<char> {
    match message {
        MessageModel::User { content, .. } => content,
        MessageModel::Assistant { content, .. } => content,
        MessageModel::ToolResult { content, .. } => content,
    }
}

/// Name of a stop reason.
pub open spec fn reason_name(reason: StopReason) -> Seq<char> {
    match reason {
        StopReason::EndTurn => "stop"@,
        StopReason::ToolUse => "tool_call"@,
        StopReason::Length => "length"@,
        StopReason::Aborted => "aborted"@,
        StopReason::Cancelled => "cancelled"@,
        StopReason::Error => "error"@,
    }
}

/// Name of a reasoning level.
pub open spec fn level_name(level: ThinkingLevel) -> Seq<char> {
    match level {
        ThinkingLevel::Default => "default"@,
        ThinkingLevel::Off => "off"@,
        ThinkingLevel::Minimal => "minimal"@,
        ThinkingLevel::Low => "low"@,
        ThinkingLevel::Medium => "medium"@,
        ThinkingLevel::High => "high"@,
        ThinkingLevel::XHigh => "xhigh"@,
        ThinkingLevel::Max => "max"@,
    }
}

fn message_role_name(message: &Message) -> (r: &'static str)
    ensures
        r@ == role_name(message@),
{
    match message {
        Message::User { .. } => "user",
        Message::Assistant { .. } => "assistant",
        Message::ToolResult { .. } => "tool_result",
    }
}

fn message_text(message: &Message) -> (r: &str)
    ensures
        r@ == text_of_message(message@),
{
    match message {
        Message::User { content, .. } => content.as_str(),
        Message::Assistant { content, .. } => content.as_str(),
        Message::ToolResult { content, .. } => content.as_str(),
    }
}

fn stop_reason_name(reason: StopReason) -> (r: &'static str)
    ensures
        r@ == reason_name(reason),
{
    match reason {
        StopReason::EndTurn => "stop",
        StopReason::ToolUse => "tool_call",
        StopReason::Length => "length",
        StopReason::Aborted => "aborted",
        StopReason::Cancelled => "cancelled",
        StopReason::Error => "error",
    }
}

fn thinking_level_name(level: ThinkingLevel) -> (r: &'static str)
    ensures
        r@ == level_name(level),
{
    match level {
        ThinkingLevel::Default => "default",
        ThinkingLevel::Off => "off",
        ThinkingLevel::Minimal => "minimal",
        ThinkingLevel::Low => "low",
        ThinkingLevel::Medium => "medium",
        ThinkingLevel::High => "high",
        ThinkingLevel::XHigh => "xhigh",
        ThinkingLevel::Max => "max",
    }
}

/// The number of a turn, counted from the first turn of the first run.
pub open spec fn turn_number(turn: u64, offset: u64) -> u64 {
    saturating_sum(
        offset,
        if turn == 0 {
            0
        } else {
            (turn - 1) as u64
        },
    )
}

/// Type and data of a normalized event. Usage and compaction are outside the format.
pub open spec fn normal_kind(kind: EventKindModel, offset: u64) -> Read<(Seq<char>, Json)> {
    match kind {
        EventKindModel::AgentStart => Ok(("agent_start"@, Json::Object(Map::empty()))),
        EventKindModel::AgentEnd { .. } => Ok(("agent_end"@, Json::Object(Map::empty()))),
        EventKindModel::TurnStart { turn_id } => Ok(
            (
                "turn_start"@,
                Json::Object(
                    map![
                        "turn"@ => Json::Number(
                            NumberModel::Int(turn_number(turn_id.0, offset) as int),
                        ),
                    ],
                ),
            ),
        ),
        EventKindModel::TurnEnd { reason, .. } => Ok(
            (
                "turn_end"@,
                Json::Object(map!["stop_reason"@ => Json::String(reason_name(reason))]),
            ),
        ),
        EventKindModel::MessageStart { message } => Ok(
            (
                "message_start"@,
                Json::Object(map!["role"@ => Json::String(role_name(message))]),
            ),
        ),
        EventKindModel::MessageEnd { message } => Ok(
            ("message_end"@, Json::Object(map!["role"@ => Json::String(role_name(message))])),
        ),
        EventKindModel::MessageUpdate { message, .. } => Ok(
            (
                "message_update"@,
                Json::Object(
                    map![
                        "role"@ => Json::String(role_name(message)),
                        "delta"@ => Json::String(text_of_message(message)),
                    ],
                ),
            ),
        ),
        EventKindModel::ToolExecutionStart { tool_call_id, tool_name, .. } => Ok(
            (
                "tool_execution_start"@,
                Json::Object(
                    map![
                        "tool_call_id"@ => Json::String(tool_call_id),
                        "tool_name"@ => Json::String(tool_name),
                    ],
                ),
            ),
        ),
        EventKindModel::ToolExecutionEnd { tool_call_id, tool_name, result } => Ok(
            (
                "tool_execution_end"@,
                Json::Object(
                    map![
                        "tool_call_id"@ => Json::String(tool_call_id),
                        "tool_name"@ => Json::String(tool_name),
                        "is_error"@ => Json::Bool(result.is_error),
                    ],
                ),
            ),
        ),
        EventKindModel::ToolExecutionUpdate { tool_call_id, tool_name, update } => Ok(
            (
                "tool_execution_update"@,
                Json::Object(
                    map![
                        "tool_call_id"@ => Json::String(tool_call_id),
                        "tool_name"@ => Json::String(tool_name),
                        "content"@ => Json::String(update.content),
                    ],
                ),
            ),
        ),
        EventKindModel::ModelTurnUsage { .. } => Err("the V0 runner does not support usage events"@),
        _ => Err("the V0 runner does not support compaction events"@),
    }
}

/// A canonical event.
pub open spec fn event_json(sequence: nat, kind: Seq<char>, data: Json) -> Json {
    Json::Object(
        map![
            "seq"@ => Json::Number(NumberModel::Int(sequence as int)),
            "type"@ => Json::String(kind),
            "data"@ => data,
        ],
    )
}

/// A normalized event.
pub open spec fn normal_event(sequence: nat, kind: EventKindModel, offset: u64) -> Read<Json> {
    match normal_kind(kind, offset) {
        Err(error) => Err(error),
        Ok((name, data)) => Ok(event_json(sequence, name, data)),
    }
}

fn event_value(sequence: usize, kind: &str, data: JsonObject) -> (r: JsonValue)
    ensures
        r@ == event_json(sequence as nat, kind@, Json::Object(data@)),
{
    JsonValue::object(
        JsonObject::new().with("seq", JsonValue::unsigned(sequence as u64)).with(
            "type",
            JsonValue::text(kind),
        ).with("data", JsonValue::object(data)),
    )
}

fn call_object(tool_call_id: &ToolCallId, tool_name: &String) -> (r: JsonObject)
    ensures
        r@ == map![
            "tool_call_id"@ => Json::String(tool_call_id@),
            "tool_name"@ => Json::String(tool_name@),
        ],
{
    JsonObject::new().with("tool_call_id", JsonValue::text(tool_call_id.as_str())).with(
        "tool_name",
        JsonValue::text(tool_name.as_str()),
    )
}

/// Normalize an event.
pub fn normalize_event(sequence: usize, event: &AgentEvent, turn_offset: u64) -> (r: Result<
    JsonValue,
    String,
>)
    ensures
        match r {
            Ok(value) => normal_event(sequence as nat, event@.kind, turn_offset) == Ok::<
                Json,
                Seq<char>,
            >(value@),
            Err(error) => normal_event(sequence as nat, event@.kind, turn_offset) == Err::<
                Json,
                Seq<char>,
            >(error@),
        },
{
    let (kind, data) = match &event.kind {
        AgentEventKind::AgentStart => ("agent_start", JsonObject::new()),
        AgentEventKind::AgentEnd { .. } => ("agent_end", JsonObject::new()),
        AgentEventKind::TurnStart { turn_id } => (
            "turn_start",
            JsonObject::new().with(
                "turn",
                JsonValue::unsigned(turn_offset.saturating_add(turn_id.0.saturating_sub(1))),
            ),
        ),
        AgentEventKind::TurnEnd { reason, .. } => (
            "turn_end",
            JsonObject::new().with("stop_reason", JsonValue::text(stop_reason_name(*reason))),
        ),
        AgentEventKind::MessageStart { message } => (
            "message_start",
            JsonObject::new().with("role", JsonValue::text(message_role_name(message))),
        ),
        AgentEventKind::MessageEnd { message } => (
            "message_end",
            JsonObject::new().with("role", JsonValue::text(message_role_name(message))),
        ),
        AgentEventKind::MessageUpdate { message, .. } => (
            "message_update",
            JsonObject::new().with("role", JsonValue::text(message_role_name(message))).with(
                "delta",
                JsonValue::text(message_text(message)),
            ),
        ),
        AgentEventKind::ToolExecutionStart { tool_call_id, tool_name, .. } => (
            "tool_execution_start",
            call_object(tool_call_id, tool_name),
        ),
        AgentEventKind::ToolExecutionEnd { tool_call_id, tool_name, result } => (
            "tool_execution_end",
            call_object(tool_call_id, tool_name).with("is_error", JsonValue::flag(result.is_error)),
        ),
        AgentEventKind::ToolExecutionUpdate { tool_call_id, tool_name, update } => (
            "tool_execution_update",
            call_object(tool_call_id, tool_name).with(
                "content",
                JsonValue::text(update.content.as_str()),
            ),
        ),
        AgentEventKind::ModelTurnUsage { .. } => {
            return Err("the V0 runner does not support usage events".to_owned());
        },
        _ => {
            return Err("the V0 runner does not support compaction events".to_owned());
        },
    };
    assert(normal_kind(event@.kind, turn_offset) == Ok::<(Seq<char>, Json), Seq<char>>(
        (kind@, Json::Object(data@)),
    ));
    Ok(event_value(sequence, kind, data))
}


/// A text part.
pub open spec fn text_part(text: Seq<char>) -> Json {
    Json::Object(map!["type"@ => Json::String("text"@), "text"@ => Json::String(text)])
}

/// Tool-call parts.
pub open spec fn call_parts(calls: Seq<CallModel>) -> Read<Seq<Json>>
    decreases calls.len(),
{
    if calls.len() == 0 {
        Ok(Seq::empty())
    } else {
        match call_parts(calls.drop_last()) {
            Err(error) => Err(error),
            Ok(before) => match serde_from_str(calls.last().arguments) {
                Err(error) => Err(error),
                Ok(arguments) => Ok(
                    before.push(
                        Json::Object(
                            map![
                                "type"@ => Json::String("tool_call"@),
                                "id"@ => Json::String(calls.last().id),
                                "name"@ => Json::String(calls.last().name),
                                "arguments"@ => arguments,
                            ],
                        ),
                    ),
                ),
            },
        }
    }
}

proof fn lemma_parts_prefix(calls: Seq<CallModel>, k: int)
    requires
        0 <= k <= calls.len(),
        call_parts(calls.take(k)) is Err,
    ensures
        call_parts(calls) == call_parts(calls.take(k)),
    decreases calls.len() - k,
{
    if k == calls.len() {
        assert(calls.take(k) =~= calls);
    } else {
        assert(calls.take(k + 1).drop_last() =~= calls.take(k));
        lemma_parts_prefix(calls, k + 1);
    }
}

/// The parts of a message: its text, unless an assistant wrote none, then its calls.
pub open spec fn message_parts(message: MessageModel) -> Read<Seq<Json>> {
    match message {
        MessageModel::User { content, .. } => Ok(seq![text_part(content)]),
        MessageModel::ToolResult { content, .. } => Ok(seq![text_part(content)]),
        MessageModel::Assistant { content, tool_calls, .. } => match call_parts(tool_calls) {
            Err(error) => Err(error),
            Ok(calls) => Ok(
                if content.len() == 0 {
                    calls
                } else {
                    seq![text_part(content)] + calls
                },
            ),
        },
    }
}

/// A normalized message.
pub open spec fn normal_message(message: MessageModel) -> Read<Json> {
    match message_parts(message) {
        Err(error) => Err(error),
        Ok(parts) => Ok(
            Json::Object(
                map!["role"@ => Json::String(role_name(message)), "content"@ => Json::Array(parts)],
            ),
        ),
    }
}

/// Normalized messages.
pub open spec fn normal_messages(messages: Seq<MessageModel>) -> Read<Seq<Json>>
    decreases messages.len(),
{
    if messages.len() == 0 {
        Ok(Seq::empty())
    } else {
        match normal_messages(messages.drop_last()) {
            Err(error) => Err(error),
            Ok(before) => match normal_message(messages.last()) {
                Err(error) => Err(error),
                Ok(message) => Ok(before.push(message)),
            },
        }
    }
}

proof fn lemma_messages_prefix(messages: Seq<MessageModel>, k: int)
    requires
        0 <= k <= messages.len(),
        normal_messages(messages.take(k)) is Err,
    ensures
        normal_messages(messages) == normal_messages(messages.take(k)),
    decreases messages.len() - k,
{
    if k == messages.len() {
        assert(messages.take(k) =~= messages);
    } else {
        assert(messages.take(k + 1).drop_last() =~= messages.take(k));
        lemma_messages_prefix(messages, k + 1);
    }
}

fn text_content(text: &str) -> (r: JsonValue)
    ensures
        r@ == text_part(text@),
{
    JsonValue::object(
        JsonObject::new().with("type", JsonValue::text("text")).with("text", JsonValue::text(text)),
    )
}

fn call_contents(calls: &Vec<AssistantToolCall>, parts: &mut Vec<JsonValue>) -> (r: Result<
    (),
    String,
>)
    ensures
        match r {
            Ok(_) => call_parts(crate::model::views(calls@)) is Ok && crate::model::views(
                final(parts)@,
            ) == crate::model::views(old(parts)@) + call_parts(crate::model::views(calls@))->Ok_0,
            Err(error) => call_parts(crate::model::views(calls@)) == Err::<Seq<Json>, Seq<char>>(
                error@,
            ),
        },
{
    let ghost all = crate::model::views(calls@);
    let ghost earlier = crate::model::views(parts@);
    let mut i: usize = 0;
    assert(earlier =~= earlier + Seq::<Json>::empty());
    while i < calls.len()
        invariant
            i <= calls@.len(),
            all == crate::model::views(calls@),
            earlier == crate::model::views(old(parts)@),
            call_parts(all.take(i as int)) is Ok,
            crate::model::views(parts@) == earlier + call_parts(all.take(i as int))->Ok_0,
        decreases calls.len() - i,
    {
        proof {
            assert(all.take(i + 1).drop_last() =~= all.take(i as int));
            assert(all.take(i + 1).last() == calls@[i as int]@);
        }
        let call = &calls[i];
        match JsonValue::parse(call.arguments.as_str()) {
            Err(error) => {
                proof {
                    lemma_parts_prefix(all, i + 1);
                }
                return Err(error.message);
            },
            Ok(arguments) => {
                let part = JsonValue::object(
                    JsonObject::new().with("type", JsonValue::text("tool_call")).with(
                        "id",
                        JsonValue::text(call.id.as_str()),
                    ).with("name", JsonValue::text(call.name.as_str())).with("arguments", arguments),
                );
                parts.push(part);
                assert(crate::model::views(parts@) =~= earlier + call_parts(
                    all.take(i + 1),
                )->Ok_0);
            },
        }
        i = i + 1;
    }
    assert(all.take(i as int) =~= all);
    Ok(())
}

/// Normalize a message.
pub fn normalize_message(message: &Message) -> (r: Result<JsonValue, String>)
    ensures
        match r {
            Ok(value) => normal_message(message@) == Ok::<Json, Seq<char>>(value@),
            Err(error) => normal_message(message@) == Err::<Json, Seq<char>>(error@),
        },
{
    let mut parts: Vec<JsonValue> = Vec::new();
    match message {
        Message::User { content, .. } => {
            parts.push(text_content(content.as_str()));
            assert(crate::model::views(parts@) =~= seq![text_part(content@)]);
        },
        Message::ToolResult { content, .. } => {
            parts.push(text_content(content.as_str()));
            assert(crate::model::views(parts@) =~= seq![text_part(content@)]);
        },
        Message::Assistant { content, tool_calls, .. } => {
            if !crate::text::same(content.as_str(), "") {
                parts.push(text_content(content.as_str()));
                assert(crate::model::views(parts@) =~= seq![text_part(content@)]);
            }
            proof {
                reveal_strlit("");
                assert(content@ == ""@ <==> content@.len() == 0) by {
                    assert(""@.len() == 0);
                    if content@.len() == 0 {
                        assert(content@ =~= ""@);
                    }
                }
                if content@.len() == 0 {
                    assert(crate::model::views(parts@) =~= Seq::<Json>::empty());
                }
            }
            if let Err(error) = call_contents(tool_calls, &mut parts) {
                return Err(error);
            }
            proof {
                if content@.len() == 0 {
                    assert(crate::model::views(parts@) =~= call_parts(
                        crate::model::views(tool_calls@),
                    )->Ok_0);
                }
            }
        },
    }
    Ok(
        JsonValue::object(
            JsonObject::new().with("role", JsonValue::text(message_role_name(message))).with(
                "content",
                JsonValue::array(parts),
            ),
        ),
    )
}

fn normalize_messages(messages: &Vec<Message>) -> (r: Result<Vec<JsonValue>, String>)
    ensures
        match r {
            Ok(values) => normal_messages(crate::model::views(messages@)) == Ok::<_, Seq<char>>(
                crate::model::views(values@),
            ),
            Err(error) => normal_messages(crate::model::views(messages@)) == Err::<
                Seq<Json>,
                Seq<char>,
            >(error@),
        },
{
    let ghost all = crate::model::views(messages@);
    let mut values: Vec<JsonValue> = Vec::new();
    assert(crate::model::views(values@) =~= Seq::<Json>::empty());
    let mut i: usize = 0;
    while i < messages.len()
        invariant
            i <= messages@.len(),
            all == crate::model::views(messages@),
            normal_messages(all.take(i as int)) == Ok::<Seq<Json>, Seq<char>>(
                crate::model::views(values@),
            ),
        decreases messages.len() - i,
    {
        proof {
            assert(all.take(i + 1).drop_last() =~= all.take(i as int));
            assert(all.take(i + 1).last() == messages@[i as int]@);
        }
        match normalize_message(&messages[i]) {
            Err(error) => {
                proof {
                    lemma_messages_prefix(all, i + 1);
                }
                return Err(error);
            },
            Ok(value) => values.push(value),
        }
        i = i + 1;
    }
    assert(all.take(i as int) =~= all);
    Ok(values)
}

/// The normalized events of the runs so far, and the number of their turns.
#[derive(Debug)]
pub struct FixtureReport {
    events: Vec<JsonValue>,
    turn_offset: u64,
}

/// Model of a [`FixtureReport`].
#[verifier::ext_equal]
pub struct ReportModel {
    pub events: Seq<Json>,
    pub turns: u64,
}

impl View for FixtureReport {
    type V = ReportModel;

    closed spec fn view(&self) -> ReportModel {
        ReportModel { events: crate::model::views(self.events@), turns: self.turn_offset }
    }
}

/// Events with those of a run appended.
pub open spec fn with_run(events: Seq<Json>, run: Seq<EventModel>, offset: u64) -> Read<Seq<Json>>
    decreases run.len(),
{
    if run.len() == 0 {
        Ok(events)
    } else {
        match with_run(events, run.drop_last(), offset) {
            Err(error) => Err(error),
            Ok(before) => match normal_event(before.len(), run.last().kind, offset) {
                Err(error) => Err(error),
                Ok(event) => Ok(before.push(event)),
            },
        }
    }
}

proof fn lemma_run_prefix(events: Seq<Json>, run: Seq<EventModel>, offset: u64, k: int)
    requires
        0 <= k <= run.len(),
        with_run(events, run.take(k), offset) is Err,
    ensures
        with_run(events, run, offset) == with_run(events, run.take(k), offset),
    decreases run.len() - k,
{
    if k == run.len() {
        assert(run.take(k) =~= run);
    } else {
        assert(run.take(k + 1).drop_last() =~= run.take(k));
        lemma_run_prefix(events, run, offset, k + 1);
    }
}

/// The turns that started in a run.
pub open spec fn turns_in(run: Seq<EventModel>) -> nat
    decreases run.len(),
{
    if run.len() == 0 {
        0
    } else {
        turns_in(run.drop_last()) + if run.last().kind is TurnStart {
            1nat
        } else {
            0nat
        }
    }
}

/// A report with a run appended.
pub open spec fn recorded(report: ReportModel, run: Seq<EventModel>) -> Read<ReportModel> {
    match with_run(report.events, run, report.turns) {
        Err(error) => Err(error),
        Ok(events) => Ok(
            ReportModel {
                events,
                turns: if report.turns + turns_in(run) > u64::MAX {
                    u64::MAX
                } else {
                    (report.turns + turns_in(run)) as u64
                },
            },
        ),
    }
}

/// The settlement of a fixture.
pub open spec fn settlement(sequence: nat) -> Json {
    event_json(
        sequence,
        "agent_settled"@,
        Json::Object(map!["outcome"@ => Json::String("completed"@)]),
    )
}

/// The state part of a canonical result.
pub open spec fn state_json(
    fixture: FixtureModel,
    system_prompt: Seq<char>,
    level: ThinkingLevel,
) -> Json {
    Json::Object(
        map![
            "system_prompt"@ => Json::String(system_prompt),
            "model"@ => Json::Object(
                map![
                    "provider"@ => Json::String(fixture.provider),
                    "id"@ => Json::String(fixture.model),
                ],
            ),
            "thinking_level"@ => Json::String(level_name(level)),
            "tool_names"@ => Json::Array(
                fixture.tools.map_values(|tool: SpecModel| Json::String(tool.name)),
            ),
            "pending_tool_calls"@ => Json::Array(Seq::empty()),
        ],
    )
}

/// The usage part of a canonical result.
pub open spec fn usage_json(usage: FixtureUsage) -> Json {
    Json::Object(
        map![
            "input"@ => Json::Number(NumberModel::Int(usage.input as int)),
            "output"@ => Json::Number(NumberModel::Int(usage.output as int)),
            "cache_read"@ => Json::Number(NumberModel::Int(usage.cache_read as int)),
            "cache_write"@ => Json::Number(NumberModel::Int(usage.cache_write as int)),
            "total_tokens"@ => Json::Number(NumberModel::Int(usage.total_tokens as int)),
        ],
    )
}

/// The last response of the model, in a canonical result.
pub open spec fn response_json(reason: StopReason) -> Json {
    Json::Object(
        map![
            "api"@ => Json::String("fixture"@),
            "stop_reason"@ => Json::String(reason_name(reason)),
        ],
    )
}

/// Whether an agent settled: it is idle, streams nothing, and waits for no tool.
pub open spec fn quiet(snapshot: AgentSnapshot) -> bool {
    snapshot.phase == AgentPhase::Idle && !snapshot.is_streaming
        && snapshot.pending_tool_calls@ == Set::<Seq<char>>::empty()
}

/// The canonical result of a fixture.
pub open spec fn canonical(
    fixture: FixtureModel,
    snapshot: AgentSnapshot,
    events: Seq<Json>,
    exhausted: bool,
) -> Read<Json> {
    if !quiet(snapshot) {
        Err("Rust agent did not settle the fixture run"@)
    } else if !exhausted {
        Err("model_script contains unused turns"@)
    } else {
        match normal_messages(crate::model::views(snapshot.messages@)) {
            Err(error) => Err(error),
            Ok(messages) => Ok(
                Json::Object(
                    map![
                        "format_version"@ => Json::Number(NumberModel::Int(1)),
                        "kind"@ => Json::String("canonical_parity_result"@),
                        "fixture_id"@ => Json::String(fixture.id),
                        "outcome"@ => Json::String("completed"@),
                        "settled"@ => Json::Bool(true),
                        "state"@ => state_json(
                            fixture,
                            snapshot.system_prompt@,
                            snapshot.thinking_level,
                        ),
                        "events"@ => Json::Array(events.push(settlement(events.len()))),
                        "messages"@ => Json::Array(messages),
                        "last_response"@ => response_json(fixture.turns.last().reason),
                        "usage"@ => usage_json(fixture.turns.last().usage),
                        "error"@ => Json::Null,
                    ],
                ),
            ),
        }
    }
}

fn state_value(fixture: &Fixture, snapshot: &AgentSnapshot) -> (r: JsonValue)
    ensures
        r@ == state_json(fixture@, snapshot.system_prompt@, snapshot.thinking_level),
{
    let mut names: Vec<JsonValue> = Vec::new();
    let ghost all = fixture@.tools.map_values(|tool: SpecModel| Json::String(tool.name));
    let mut i: usize = 0;
    assert(crate::model::views(names@) =~= all.take(0));
    while i < fixture.tools.len()
        invariant
            i <= fixture.tools@.len(),
            all == fixture@.tools.map_values(|tool: SpecModel| Json::String(tool.name)),
            crate::model::views(names@) == all.take(i as int),
        decreases fixture.tools.len() - i,
    {
        names.push(JsonValue::text(fixture.tools[i].name.as_str()));
        i = i + 1;
        assert(crate::model::views(names@) =~= all.take(i as int));
    }
    assert(all.take(i as int) =~= all);
    let model = JsonObject::new().with("provider", JsonValue::text(fixture.provider.as_str())).with(
        "id",
        JsonValue::text(fixture.model.as_str()),
    );
    let none: Vec<JsonValue> = Vec::new();
    assert(crate::model::views(none@) =~= Seq::<Json>::empty());
    JsonValue::object(
        JsonObject::new().with(
            "system_prompt",
            JsonValue::text(snapshot.system_prompt.as_str()),
        ).with("model", JsonValue::object(model)).with(
            "thinking_level",
            JsonValue::text(thinking_level_name(snapshot.thinking_level)),
        ).with("tool_names", JsonValue::array(names)).with(
            "pending_tool_calls",
            JsonValue::array(none),
        ),
    )
}

fn usage_value(usage: &FixtureUsage) -> (r: JsonValue)
    ensures
        r@ == usage_json(*usage),
{
    JsonValue::object(
        JsonObject::new().with("input", JsonValue::unsigned(usage.input)).with(
            "output",
            JsonValue::unsigned(usage.output),
        ).with("cache_read", JsonValue::unsigned(usage.cache_read)).with(
            "cache_write",
            JsonValue::unsigned(usage.cache_write),
        ).with("total_tokens", JsonValue::unsigned(usage.total_tokens)),
    )
}

impl FixtureReport {
    /// A report without runs.
    pub fn new() -> (r: FixtureReport)
        ensures
            r@ == (ReportModel { events: Seq::empty(), turns: 0 }),
    {
        let r = FixtureReport { events: Vec::new(), turn_offset: 0 };
        assert(r@ =~= (ReportModel { events: Seq::empty(), turns: 0 }));
        r
    }

    /// Append the events of one run. Numbers of events and turns go on from run to run.
    pub fn record(self, run: &Vec<AgentEvent>) -> (r: Result<FixtureReport, String>)
        ensures
            match r {
                Ok(report) => recorded(self@, crate::model::views(run@)) == Ok::<
                    ReportModel,
                    Seq<char>,
                >(report@),
                Err(error) => recorded(self@, crate::model::views(run@)) == Err::<
                    ReportModel,
                    Seq<char>,
                >(error@),
            },
    {
        let ghost all = crate::model::views(run@);
        let ghost earlier = self@;
        let offset = self.turn_offset;
        let mut events = self.events;
        let mut turns: u64 = 0;
        let mut i: usize = 0;
        while i < run.len()
            invariant
                i <= run@.len(),
                all == crate::model::views(run@),
                earlier == self@,
                offset == earlier.turns,
                with_run(earlier.events, all.take(i as int), offset) == Ok::<Seq<Json>, Seq<char>>(
                    crate::model::views(events@),
                ),
                turns == turns_in(all.take(i as int)),
                turns <= i,
            decreases run.len() - i,
        {
            proof {
                assert(all.take(i + 1).drop_last() =~= all.take(i as int));
                assert(all.take(i + 1).last() == run@[i as int]@);
            }
            match normalize_event(events.len(), &run[i], offset) {
                Err(error) => {
                    proof {
                        lemma_run_prefix(earlier.events, all, offset, i + 1);
                    }
                    return Err(error);
                },
                Ok(event) => events.push(event),
            }
            if let AgentEventKind::TurnStart { .. } = &run[i].kind {
                turns = turns + 1;
            }
            i = i + 1;
        }
        assert(all.take(i as int) =~= all);
        Ok(FixtureReport { events, turn_offset: offset.saturating_add(turns) })
    }

    /// The canonical result, once every action was performed. `exhausted` says that the
    /// scripted model has no turn left.
    pub fn result(self, fixture: &Fixture, snapshot: &AgentSnapshot, exhausted: bool) -> (r: Result<
        JsonValue,
        String,
    >)
        requires
            fixture.wf(),
        ensures
            match r {
                Ok(value) => canonical(fixture@, *snapshot, self@.events, exhausted) == Ok::<
                    Json,
                    Seq<char>,
                >(value@),
                Err(error) => canonical(fixture@, *snapshot, self@.events, exhausted) == Err::<
                    Json,
                    Seq<char>,
                >(error@),
            },
    {
        let idle = match snapshot.phase {
            AgentPhase::Idle => true,
            _ => false,
        };
        if !idle || snapshot.is_streaming || !snapshot.pending_tool_calls.is_empty() {
            return Err("Rust agent did not settle the fixture run".to_owned());
        }
        if !exhausted {
            return Err("model_script contains unused turns".to_owned());
        }
        let mut events = self.events;
        let settled = event_value(
            events.len(),
            "agent_settled",
            JsonObject::new().with("outcome", JsonValue::text("completed")),
        );
        events.push(settled);
        let messages = match normalize_messages(&snapshot.messages) {
            Err(error) => return Err(error),
            Ok(messages) => messages,
        };
        let last = &fixture.turns[fixture.turns.len() - 1];
        assert(fixture@.turns.last() == last@);
        let response = JsonObject::new().with("api", JsonValue::text("fixture")).with(
            "stop_reason",
            JsonValue::text(stop_reason_name(last.stop_reason)),
        );
        Ok(
            JsonValue::object(
                JsonObject::new().with("format_version", JsonValue::unsigned(1)).with(
                    "kind",
                    JsonValue::text("canonical_parity_result"),
                ).with("fixture_id", JsonValue::text(fixture.id.as_str())).with(
                    "outcome",
                    JsonValue::text("completed"),
                ).with("settled", JsonValue::flag(true)).with(
                    "state",
                    state_value(fixture, snapshot),
                ).with("events", JsonValue::array(events)).with(
                    "messages",
                    JsonValue::array(messages),
                ).with("last_response", JsonValue::object(response)).with(
                    "usage",
                    usage_value(&last.usage),
                ).with("error", JsonValue::null()),
            ),
        )
    }
}

/// The events of a report are numbered in order: each new event gets the number of events
/// before it, over all runs.
pub proof fn law_events_are_numbered(events: Seq<Json>, run: Seq<EventModel>, offset: u64)
    requires
        forall|i: int| 0 <= i < events.len() ==> numbered(#[trigger] events[i], i),
        with_run(events, run, offset) is Ok,
    ensures
        ({
            let all = with_run(events, run, offset)->Ok_0;
            &&& all.len() == events.len() + run.len()
            &&& forall|i: int| 0 <= i < all.len() ==> numbered(#[trigger] all[i], i)
        }),
    decreases run.len(),
{
    if run.len() > 0 {
        law_events_are_numbered(events, run.drop_last(), offset);
        let before = with_run(events, run.drop_last(), offset)->Ok_0;
        let event = normal_event(before.len(), run.last().kind, offset)->Ok_0;
        lemma_numbered(before.len(), run.last().kind, offset);
        let all = with_run(events, run, offset)->Ok_0;
        assert(all == before.push(event));
        assert forall|i: int| 0 <= i < all.len() implies numbered(#[trigger] all[i], i) by {
            if i < before.len() {
                assert(all[i] == before[i]);
            }
        }
    }
}

/// Whether an event carries a number.
pub open spec fn numbered(event: Json, sequence: int) -> bool {
    event.get("seq"@) == Some(Json::Number(NumberModel::Int(sequence)))
}

proof fn lemma_numbered(sequence: nat, kind: EventKindModel, offset: u64)
    requires
        normal_event(sequence, kind, offset) is Ok,
    ensures
        numbered(normal_event(sequence, kind, offset)->Ok_0, sequence as int),
{
    reveal_strlit("seq");
    reveal_strlit("type");
    reveal_strlit("data");
    assert("seq"@.len() != "type"@.len());
    assert("seq"@.len() != "data"@.len());
}

} // verus!
