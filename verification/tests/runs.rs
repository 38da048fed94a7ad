//! Runs, compactions and traces, driven synchronously.

use pi_agent_core::agent::Agent;
use pi_agent_core::compaction::{
    validate_messages, CompactionAction, CompactionError, CompactionHandle, CompactionInput,
    CompactionResult,
};
use pi_agent_core::error::{CoreError, HookError, SchedulerError, ToolError};
use pi_agent_core::event::{AgentEvent, AgentEventKind, CompactionOutcome, EventSequence};
use pi_agent_core::hooks::{AfterToolCall, BeforeToolCall, ContextEnvelope, NextTurn, Replacement};
use pi_agent_core::json::JsonValue;
use pi_agent_core::queue::{QueueMode, SteeringQueue};
use pi_agent_core::run::RunHandle;
use pi_agent_core::scheduler::{
    CompletionSet, ModelRequest, ModelStream, ModelStreamEvent, Scheduler,
};
use pi_agent_core::schema_validation::validate_tool_arguments;
use pi_agent_core::state::{
    AgentPhase, AssistantToolCall, Message, MessageId, ModelDescriptor, RunId, RunPhase,
    SerializedJson, StopReason, ThinkingLevel, ToolCallId, TurnId, Usage,
};
use pi_agent_core::tool::{ToolCall, ToolDefinition, ToolExecutionMode, ToolResult, ToolUpdate};
use pi_agent_core::trace::{TraceEvent, TraceObserver};
use pi_agent_core::transition::{PendingToolUpdate, RunAction, RunInput};
use pi_agent_core::updates::PendingToolUpdates;
use std::collections::VecDeque;

fn id(text: &str) -> ToolCallId {
    ToolCallId::new(text.to_owned()).expect("non-empty test tool-call ID")
}

fn assistant_call(call: &str, name: &str, arguments: &str) -> AssistantToolCall {
    AssistantToolCall {
        id: id(call),
        name: name.into(),
        arguments: SerializedJson::new(arguments.into()),
    }
}

fn plain_result(call: ToolCallId, content: &str) -> ToolResult {
    ToolResult {
        tool_call_id: call,
        content: content.into(),
        details: None,
        usage: None,
        added_tool_names: Vec::new(),
        terminate: false,
        is_error: false,
    }
}

fn text_stream(text: &str) -> ModelStream {
    ModelStream {
        events: vec![
            ModelStreamEvent::TextDelta(text.into()),
            ModelStreamEvent::End(StopReason::EndTurn),
        ],
    }
}

fn call_stream(calls: Vec<AssistantToolCall>) -> ModelStream {
    let mut events: Vec<ModelStreamEvent> =
        calls.into_iter().map(ModelStreamEvent::ToolCall).collect();
    events.push(ModelStreamEvent::End(StopReason::ToolUse));
    ModelStream { events }
}

fn definition(name: &str, schema: &str, execution_mode: ToolExecutionMode) -> ToolDefinition {
    ToolDefinition {
        name: name.into(),
        description: name.into(),
        schema: JsonValue::parse(schema).expect("test schema is valid JSON"),
        execution_mode,
    }
}

/// How a scripted tool behaves.
struct Script {
    name: &'static str,
    content: &'static str,
    yields: usize,
    updates: Vec<&'static str>,
    terminate: bool,
    fails: bool,
}

fn script(name: &'static str, content: &'static str) -> Script {
    Script { name, content, yields: 0, updates: Vec::new(), terminate: false, fails: false }
}

/// A host that answers every action from a script.
struct Host {
    streams: VecDeque<ModelStream>,
    requests: Vec<ModelRequest>,
    scripts: Vec<Script>,
    executed: Vec<ToolCall>,
    observed: Vec<AgentEvent>,
    log: Vec<String>,
    cancelled: bool,
    abort_on_start: bool,
    cancel_on_execute: bool,
    before: fn(&ToolCall) -> Result<BeforeToolCall, HookError>,
    after: fn(&ToolCall) -> Result<AfterToolCall, HookError>,
    transform: fn(ContextEnvelope) -> ContextEnvelope,
    convert: fn(ContextEnvelope) -> String,
    prepare: fn(ContextEnvelope) -> NextTurn,
}

impl Host {
    fn new(streams: Vec<ModelStream>) -> Host {
        Host {
            streams: streams.into(),
            requests: Vec::new(),
            scripts: Vec::new(),
            executed: Vec::new(),
            observed: Vec::new(),
            log: Vec::new(),
            cancelled: false,
            abort_on_start: false,
            cancel_on_execute: false,
            before: |_| Ok(BeforeToolCall::Allow),
            after: |_| Ok(AfterToolCall::default()),
            transform: |context| context,
            convert: |_| "[]".to_owned(),
            prepare: |_| NextTurn::default(),
        }
    }

    fn drive(&mut self, run: &mut RunHandle, agent: &mut Agent) -> Result<(), CoreError> {
        let mut stream: VecDeque<ModelStreamEvent> = VecDeque::new();
        let mut allowed: VecDeque<ToolCall> = VecDeque::new();
        let mut running: Vec<(usize, ToolCall, usize)> = Vec::new();
        let mut updates = PendingToolUpdates::new();
        let mut input = RunInput::Drive;
        loop {
            input = match run.advance(agent, input, self.cancelled) {
                RunAction::Publish(event) => {
                    match &event.kind {
                        AgentEventKind::ToolExecutionStart { tool_call_id, tool_name, arguments } => {
                            self.log.push(format!(
                                "start:{}:{}:{}",
                                tool_call_id.as_str(),
                                tool_name,
                                arguments.as_str()
                            ));
                        }
                        AgentEventKind::ToolExecutionEnd { tool_call_id, .. } => {
                            self.log.push(format!("end:{}", tool_call_id.as_str()));
                        }
                        AgentEventKind::AgentStart if self.abort_on_start => {
                            agent.abort(run);
                            self.cancelled = true;
                        }
                        _ => {}
                    }
                    self.observed.push(event);
                    RunInput::Published
                }
                RunAction::TransformContext(context) => RunInput::Context((self.transform)(context)),
                RunAction::ConvertContext(context) => RunInput::Converted((self.convert)(context)),
                RunAction::OpenStream(request) => {
                    self.requests.push(request);
                    if self.cancelled {
                        self.streams.push_front(ModelStream {
                            events: vec![ModelStreamEvent::End(StopReason::Aborted)],
                        });
                    }
                    match self.streams.pop_front() {
                        Some(next) => {
                            stream = next.events.into();
                            RunInput::Connected
                        }
                        None => RunInput::Failed(CoreError::ModelProvider {
                            message: "unexpected model request".into(),
                        }),
                    }
                }
                RunAction::NextStreamEvent => RunInput::Stream(stream.pop_front()),
                RunAction::ValidateArguments { .. } => unreachable!("validated by the library"),
                RunAction::BeforeToolCall { call, .. } => {
                    let decision = (self.before)(&call);
                    if matches!(decision, Ok(BeforeToolCall::Allow)) && !self.cancelled {
                        allowed.push_back(call);
                    }
                    RunInput::Before(decision)
                }
                RunAction::StartTools(indices) => {
                    running.clear();
                    updates = PendingToolUpdates::new();
                    for index in indices {
                        let call = allowed.pop_front().expect("an allowed call per index");
                        self.log.push(format!(
                            "execute:{}:{}",
                            call.id.as_str(),
                            call.arguments.as_str()
                        ));
                        self.executed.push(call.clone());
                        let script = self.scripts.iter().find(|s| s.name == call.name).unwrap();
                        for text in &script.updates {
                            updates.push(PendingToolUpdate {
                                tool_call_id: call.id.clone(),
                                tool_name: call.name.clone(),
                                update: ToolUpdate { content: (*text).into(), details: None },
                            });
                        }
                        running.push((index, call, script.yields));
                    }
                    if self.cancel_on_execute {
                        self.cancelled = true;
                    }
                    RunInput::Launched
                }
                RunAction::AwaitTools => match updates.take() {
                    Some(taken) => RunInput::Updates(taken),
                    None => {
                        let mut at = None;
                        while at.is_none() {
                            for (place, entry) in running.iter_mut().enumerate() {
                                if entry.2 == 0 {
                                    at = Some(place);
                                    break;
                                }
                                entry.2 -= 1;
                            }
                        }
                        let (index, call, _) = running.swap_remove(at.unwrap());
                        updates.close(&call.id);
                        RunInput::Completed {
                            index,
                            execution: self.outcome(&call),
                            updates: updates.take().unwrap_or_default(),
                        }
                    }
                },
                RunAction::PollOnce(index) => {
                    let place = running.iter().position(|entry| entry.0 == index).unwrap();
                    let (_, call, yields) = running.swap_remove(place);
                    RunInput::Polled(if yields == 0 { Some(self.outcome(&call)) } else { None })
                }
                RunAction::FlushUpdates => RunInput::Flushed(updates.take().unwrap_or_default()),
                RunAction::AfterToolCall { call, .. } => RunInput::After((self.after)(&call)),
                RunAction::PrepareNextTurn(context) => RunInput::NextTurn((self.prepare)(context)),
                RunAction::AskStop(_) => RunInput::Stop(false),
                RunAction::Done(outcome) => return outcome,
            };
        }
    }

    fn outcome(&self, call: &ToolCall) -> Result<ToolResult, ToolError> {
        let script = self.scripts.iter().find(|s| s.name == call.name).unwrap();
        if script.fails {
            return Err(ToolError::Execution {
                tool: call.name.clone(),
                message: script.content.into(),
            });
        }
        let mut result = plain_result(call.id.clone(), script.content);
        result.terminate = script.terminate;
        Ok(result)
    }
}

#[test]
fn caller_driven_text_run_emits_lifecycle_and_settles() {
    let mut agent = Agent::builder().model_provider().build();
    let mut host = Host::new(vec![text_stream("fixture capture succeeded.")]);
    let mut run = agent
        .start_prompt("Return exactly: fixture capture succeeded.".into())
        .expect("run starts");

    host.drive(&mut run, &mut agent).expect("text run should settle");

    let events = run.events();
    assert_eq!(events.len(), 9);
    assert!(matches!(events[0].kind, AgentEventKind::AgentStart));
    assert!(matches!(events[1].kind, AgentEventKind::TurnStart { .. }));
    assert!(matches!(events[2].kind, AgentEventKind::MessageStart { .. }));
    assert!(matches!(events[3].kind, AgentEventKind::MessageEnd { .. }));
    assert!(matches!(events[4].kind, AgentEventKind::MessageStart { .. }));
    assert!(matches!(events[5].kind, AgentEventKind::MessageUpdate { .. }));
    assert!(matches!(events[6].kind, AgentEventKind::MessageEnd { .. }));
    assert!(matches!(events[7].kind, AgentEventKind::TurnEnd { .. }));
    assert!(matches!(events[8].kind, AgentEventKind::AgentEnd { .. }));

    let snapshot = agent.snapshot();
    assert_eq!(snapshot.phase, AgentPhase::Idle);
    assert!(!snapshot.is_streaming);
    assert_eq!(snapshot.messages.len(), 2);
    assert!(matches!(snapshot.messages[1], Message::Assistant { .. }));
}

#[test]
fn provider_failure_settles_the_agent_before_returning_the_error() {
    let mut agent = Agent::builder().model_provider().build();
    let mut host = Host::new(Vec::new());
    let mut run = agent.start_prompt("trigger provider failure".into()).expect("run starts");

    let error = host.drive(&mut run, &mut agent).expect_err("provider must fail");

    assert!(matches!(error, CoreError::ModelProvider { .. }));
    let events = run.events();
    assert_eq!(events.len(), 8);
    assert!(matches!(events[4].kind, AgentEventKind::MessageStart { .. }));
    assert!(matches!(events[5].kind, AgentEventKind::MessageEnd { .. }));
    assert!(matches!(events[6].kind, AgentEventKind::TurnEnd { .. }));
    assert!(matches!(events[7].kind, AgentEventKind::AgentEnd { .. }));
    let snapshot = agent.snapshot();
    assert_eq!(snapshot.phase, AgentPhase::Idle);
    assert!(!snapshot.is_streaming);
    assert!(snapshot.pending_tool_calls.is_empty());
    assert!(snapshot.last_error.is_some());
    assert!(matches!(
        snapshot.messages.last(),
        Some(Message::Assistant { content, .. }) if content.is_empty()
    ));
}

#[test]
fn awaited_observer_receives_each_reduced_event_in_source_order() {
    let mut agent = Agent::builder().model_provider().build();
    let mut host = Host::new(vec![text_stream("fixture capture succeeded.")]);
    let mut run = agent.start_prompt("observe the lifecycle".into()).expect("run starts");

    host.drive(&mut run, &mut agent).expect("observer should settle with the run");

    let emitted = run.events();
    assert_eq!(host.observed, emitted);
    assert!(matches!(
        host.observed.last().map(|event| &event.kind),
        Some(AgentEventKind::AgentEnd { .. })
    ));
    for (index, event) in emitted.iter().enumerate() {
        assert_eq!(event.sequence, EventSequence(index as u64 + 1));
        assert_eq!(event.run_id, run.id());
    }
}

#[test]
fn cancellation_settles_terminal_events_before_wait_for_idle() {
    let mut agent = Agent::builder().model_provider().build();
    let mut host = Host::new(vec![text_stream("fixture capture succeeded.")]);
    host.abort_on_start = true;
    let mut run =
        agent.start_prompt("cancel through an awaited observer".into()).expect("run starts");

    let error =
        host.drive(&mut run, &mut agent).expect_err("observer requested cancellation");

    assert_eq!(error, CoreError::Cancelled);
    assert_eq!(run.snapshot().phase, RunPhase::Cancelled);
    let events = run.events();
    assert!(matches!(events[0].kind, AgentEventKind::AgentStart));
    assert!(matches!(
        events[events.len() - 2].kind,
        AgentEventKind::TurnEnd { reason: StopReason::Cancelled, .. }
    ));
    assert!(matches!(
        events.last().map(|event| &event.kind),
        Some(AgentEventKind::AgentEnd { .. })
    ));
    assert_eq!(agent.snapshot().phase, AgentPhase::Idle);
    assert!(agent.is_idle());
    assert!(host.requests.is_empty());
}

#[test]
fn tool_turn_executes_then_continues_the_model_loop() {
    let call = assistant_call("call_openrouter_001", "echo", r#"{"text":"hello"}"#);
    let mut agent = Agent::builder()
        .model_provider()
        .tool(definition(
            "echo",
            r#"{"type":"object","required":["text"]}"#,
            ToolExecutionMode::Parallel,
        ))
        .build();
    let mut host = Host::new(vec![call_stream(vec![call.clone()]), text_stream("done")]);
    host.scripts.push(script("echo", "echoed: hello"));
    let mut run = agent.start_prompt("echo hello".into()).expect("run starts");

    host.drive(&mut run, &mut agent).expect("tool call should continue to a final model turn");

    assert_eq!(host.requests.len(), 2);
    assert_eq!(
        host.executed.as_slice(),
        [ToolCall {
            id: id("call_openrouter_001"),
            name: "echo".into(),
            arguments: SerializedJson::new(r#"{"text":"hello"}"#.into()),
        }]
    );
    let events = run.events();
    assert_eq!(events.len(), 17);
    assert!(matches!(events[0].kind, AgentEventKind::AgentStart));
    assert!(matches!(events[1].kind, AgentEventKind::TurnStart { .. }));
    assert!(matches!(events[4].kind, AgentEventKind::MessageStart { .. }));
    assert!(matches!(events[5].kind, AgentEventKind::MessageEnd { .. }));
    assert!(matches!(events[6].kind, AgentEventKind::ToolExecutionStart { .. }));
    assert!(matches!(events[7].kind, AgentEventKind::ToolExecutionEnd { .. }));
    assert!(matches!(events[8].kind, AgentEventKind::MessageStart { .. }));
    assert!(matches!(events[9].kind, AgentEventKind::MessageEnd { .. }));
    assert!(matches!(
        events[10].kind,
        AgentEventKind::TurnEnd { reason: StopReason::ToolUse, .. }
    ));
    assert!(matches!(events[11].kind, AgentEventKind::TurnStart { .. }));
    assert!(matches!(events[12].kind, AgentEventKind::MessageStart { .. }));
    assert!(matches!(events[13].kind, AgentEventKind::MessageUpdate { .. }));
    assert!(matches!(events[14].kind, AgentEventKind::MessageEnd { .. }));
    assert!(matches!(
        events[15].kind,
        AgentEventKind::TurnEnd { reason: StopReason::EndTurn, .. }
    ));
    assert!(matches!(events[16].kind, AgentEventKind::AgentEnd { .. }));

    let snapshot = agent.snapshot();
    assert_eq!(snapshot.phase, AgentPhase::Idle);
    assert_eq!(snapshot.messages.len(), 4);
    assert!(matches!(
        snapshot.messages[1],
        Message::Assistant { ref tool_calls, .. } if tool_calls == &vec![call.clone()]
    ));
    assert!(matches!(
        snapshot.messages[2],
        Message::ToolResult { ref tool_call_id, ref content, is_error: false, .. }
            if tool_call_id == &id("call_openrouter_001") && content == "echoed: hello"
    ));
    assert!(matches!(
        snapshot.messages[3],
        Message::Assistant { ref content, ref tool_calls, .. }
            if content == "done" && tool_calls.is_empty()
    ));
}

#[test]
fn invalid_tool_arguments_become_an_error_result_and_the_model_can_continue() {
    let mut agent = Agent::builder()
        .model_provider()
        .tool(definition(
            "echo",
            r#"{"type":"object","required":["text"]}"#,
            ToolExecutionMode::Parallel,
        ))
        .build();
    let mut host = Host::new(vec![
        call_stream(vec![assistant_call("call_invalid_arguments", "echo", "{}")]),
        text_stream("recovered"),
    ]);
    host.scripts.push(script("echo", "echoed: hello"));
    let mut run =
        agent.start_prompt("send malformed echo arguments".into()).expect("run starts");

    host.drive(&mut run, &mut agent).expect("schema failure should remain tool-scoped");

    assert_eq!(host.requests.len(), 2);
    assert!(host.executed.is_empty());
    assert!(matches!(
        agent.snapshot().messages[2],
        Message::ToolResult { is_error: true, .. }
    ));
    assert!(matches!(
        run.events()[7].kind,
        AgentEventKind::ToolExecutionEnd { result: ToolResult { is_error: true, .. }, .. }
    ));
    assert!(matches!(
        agent.snapshot().messages.last(),
        Some(Message::Assistant { content, .. }) if content == "recovered"
    ));
}

#[test]
fn steering_queue_drains_one_at_a_time_before_initial_and_later_turns() {
    let mut agent = Agent::builder().model_provider().build();
    let mut host =
        Host::new(vec![text_stream("first response"), text_stream("second response")]);
    agent.enqueue_steering("first steering".into()).expect("queued");
    agent.enqueue_steering("second steering".into()).expect("queued");
    let mut run = agent.start_prompt("initial prompt".into()).expect("run starts");

    host.drive(&mut run, &mut agent)
        .expect("one-at-a-time steering should produce one additional model turn");

    assert_eq!(host.requests.len(), 2);
    let messages = agent.snapshot().messages;
    let user_contents = messages
        .iter()
        .filter_map(|message| match message {
            Message::User { content, .. } => Some(content.as_str()),
            _ => None,
        })
        .collect::<Vec<_>>();
    assert_eq!(user_contents, ["initial prompt", "first steering", "second steering"]);
    let turn_starts = run
        .events()
        .into_iter()
        .filter(|event| matches!(event.kind, AgentEventKind::TurnStart { .. }))
        .count();
    assert_eq!(turn_starts, 2);
    assert!(!agent.has_queued_messages());
}

#[test]
fn follow_up_queue_extends_a_run_only_at_the_idle_boundary() {
    let mut agent = Agent::builder().model_provider().build();
    let mut host =
        Host::new(vec![text_stream("first response"), text_stream("follow-up response")]);
    agent.enqueue_follow_up("follow-up input".into()).expect("queued");
    let mut run = agent.start_prompt("initial prompt".into()).expect("run starts");

    host.drive(&mut run, &mut agent)
        .expect("follow-up should be injected only after a normal stopping turn");

    assert_eq!(host.requests.len(), 2);
    assert!(matches!(
        agent.snapshot().messages[2],
        Message::User { ref content, .. } if content == "follow-up input"
    ));
    assert!(matches!(
        agent.snapshot().messages[3],
        Message::Assistant { ref content, .. } if content == "follow-up response"
    ));
    assert!(!agent.has_queued_messages());
}

#[test]
fn continue_requires_a_non_assistant_tail_unless_queue_input_is_available() {
    let mut agent = Agent::builder().model_provider().build();
    let mut host =
        Host::new(vec![text_stream("first response"), text_stream("continued response")]);
    assert!(matches!(
        agent.start_continue(),
        Err(CoreError::InvalidTransition(error)) if error.from == "empty"
    ));
    let mut first = agent.start_prompt("initial prompt".into()).expect("run starts");
    host.drive(&mut first, &mut agent).expect("first run settles");

    assert!(matches!(
        agent.start_continue(),
        Err(CoreError::InvalidTransition(error)) if error.from == "assistant-tail"
    ));
    agent.enqueue_steering("queued continuation".into()).expect("queued");
    let mut continued = agent.start_continue().expect("continuation starts");
    host.drive(&mut continued, &mut agent).expect("continuation settles");

    assert_eq!(host.requests.len(), 2);
    assert!(matches!(
        agent.snapshot().messages[2],
        Message::User { ref content, .. } if content == "queued continuation"
    ));
    let event_kinds =
        continued.events().into_iter().map(|event| event.kind).collect::<Vec<_>>();
    assert!(matches!(event_kinds[0], AgentEventKind::AgentStart));
    assert!(matches!(event_kinds[1], AgentEventKind::TurnStart { .. }));
    assert!(matches!(event_kinds[2], AgentEventKind::MessageStart { .. }));
    assert!(matches!(event_kinds[3], AgentEventKind::MessageEnd { .. }));
}

fn slow_and_fast() -> (Agent, Host, RunHandle) {
    let mut agent = Agent::builder()
        .model_provider()
        .tool(definition("slow", r#"{"type":"object"}"#, ToolExecutionMode::Parallel))
        .tool(definition("fast", r#"{"type":"object"}"#, ToolExecutionMode::Parallel))
        .build();
    let mut host = Host::new(vec![
        call_stream(vec![
            assistant_call("call_slow", "slow", "{}"),
            assistant_call("call_fast", "fast", "{}"),
        ]),
        text_stream("done"),
    ]);
    let mut slow = script("slow", "slow");
    slow.yields = 1;
    host.scripts.push(slow);
    host.scripts.push(script("fast", "fast"));
    let run = agent.start_prompt("run two tools".into()).expect("run starts");
    (agent, host, run)
}

fn ended_calls(events: Vec<AgentEvent>) -> Vec<String> {
    events
        .into_iter()
        .filter_map(|event| match event.kind {
            AgentEventKind::ToolExecutionEnd { tool_call_id, .. } => {
                Some(tool_call_id.as_str().to_owned())
            }
            _ => None,
        })
        .collect()
}

fn result_ids(agent: &Agent) -> Vec<String> {
    agent
        .snapshot()
        .messages
        .into_iter()
        .filter_map(|message| match message {
            Message::ToolResult { tool_call_id, .. } => Some(tool_call_id.as_str().to_owned()),
            _ => None,
        })
        .collect()
}

#[test]
fn parallel_tool_ends_follow_completion_order_while_results_keep_source_order() {
    let (mut agent, mut host, mut run) = slow_and_fast();

    host.drive(&mut run, &mut agent)
        .expect("parallel tools should preserve completion and transcript order contracts");

    assert_eq!(ended_calls(run.events()), ["call_fast", "call_slow"]);
    assert_eq!(result_ids(&agent), ["call_slow", "call_fast"]);
}

#[test]
fn sequential_tools_run_one_after_the_other() {
    let (_, mut host, _) = slow_and_fast();
    let mut agent = Agent::builder()
        .model_provider()
        .tool(definition("slow", r#"{"type":"object"}"#, ToolExecutionMode::Sequential))
        .tool(definition("fast", r#"{"type":"object"}"#, ToolExecutionMode::Parallel))
        .build();
    let mut run = agent.start_prompt("run two tools".into()).expect("run starts");

    host.drive(&mut run, &mut agent).expect("the run settles");

    assert_eq!(ended_calls(run.events()), ["call_slow", "call_fast"]);
    assert_eq!(
        host.log,
        [
            "start:call_slow:slow:{}",
            "execute:call_slow:{}",
            "end:call_slow",
            "start:call_fast:fast:{}",
            "execute:call_fast:{}",
            "end:call_fast",
        ]
    );
}

#[test]
fn cancelled_parallel_tools_leave_a_result_for_every_call() {
    let (mut agent, mut host, mut run) = slow_and_fast();
    host.scripts[1].updates = vec!["half"];
    host.cancel_on_execute = true;

    let error = host.drive(&mut run, &mut agent).expect_err("the run was cancelled");

    assert_eq!(error, CoreError::Cancelled);
    assert_eq!(result_ids(&agent), ["call_slow", "call_fast"]);
    let messages = agent.snapshot().messages;
    assert!(matches!(
        &messages[2],
        Message::ToolResult { content, is_error: true, .. } if content == "Operation aborted"
    ));
    assert!(matches!(
        &messages[3],
        Message::ToolResult { content, is_error: false, .. } if content == "fast"
    ));
    assert_eq!(host.requests.len(), 2);
    assert_eq!(run.snapshot().phase, RunPhase::Cancelled);
    assert_eq!(agent.snapshot().phase, AgentPhase::Idle);
}

#[test]
fn updates_are_published_before_the_end_of_their_call() {
    let (mut agent, mut host, mut run) = slow_and_fast();
    host.scripts[0].updates = vec!["a", "b"];

    host.drive(&mut run, &mut agent).expect("the run settles");

    let kinds: Vec<AgentEventKind> = run.events().into_iter().map(|event| event.kind).collect();
    let texts: Vec<&str> = kinds
        .iter()
        .filter_map(|kind| match kind {
            AgentEventKind::ToolExecutionUpdate { update, .. } => Some(update.content.as_str()),
            _ => None,
        })
        .collect();
    assert_eq!(texts, ["a", "b"]);
    let update = kinds
        .iter()
        .position(|kind| matches!(kind, AgentEventKind::ToolExecutionUpdate { .. }))
        .unwrap();
    let end = kinds
        .iter()
        .position(|kind| matches!(kind, AgentEventKind::ToolExecutionEnd { .. }))
        .unwrap();
    assert!(update < end);
}

#[test]
fn a_batch_stops_the_run_only_when_every_call_asks_for_it() {
    let (mut agent, mut host, mut run) = slow_and_fast();
    host.scripts[0].terminate = true;
    host.drive(&mut run, &mut agent).expect("the run settles");
    assert_eq!(host.requests.len(), 2);

    let (mut agent, mut host, mut run) = slow_and_fast();
    host.scripts[0].terminate = true;
    host.scripts[1].terminate = true;
    host.drive(&mut run, &mut agent).expect("the run settles");
    assert_eq!(host.requests.len(), 1);
}

#[test]
fn hooks_block_terminate_and_replace() {
    let (mut agent, mut host, mut run) = slow_and_fast();
    host.before = |call| {
        if call.name == "slow" {
            Ok(BeforeToolCall::Block { reason: "not now".into() })
        } else {
            Ok(BeforeToolCall::Allow)
        }
    };
    host.after = |_| {
        Ok(AfterToolCall {
            content: Replacement::Replace("reviewed".into()),
            is_error: Replacement::Replace(true),
            ..AfterToolCall::default()
        })
    };
    host.drive(&mut run, &mut agent).expect("the run settles");
    assert_eq!(host.executed.len(), 1);
    let messages = agent.snapshot().messages;
    assert!(matches!(
        &messages[2],
        Message::ToolResult { content, is_error: true, .. } if content == "not now"
    ));
    assert!(matches!(
        &messages[3],
        Message::ToolResult { content, is_error: true, .. } if content == "reviewed"
    ));

    let (mut agent, mut host, mut run) = slow_and_fast();
    host.before = |_| Ok(BeforeToolCall::Terminate { reason: "stop here".into() });
    host.drive(&mut run, &mut agent).expect("the run settles");
    assert!(host.executed.is_empty());
    assert_eq!(host.requests.len(), 1);

    let (mut agent, mut host, mut run) = slow_and_fast();
    host.before = |_| Err(HookError { hook: "before_tool_call", message: "broken".into() });
    host.drive(&mut run, &mut agent).expect("a failed hook stays with its call");
    assert!(matches!(
        &agent.snapshot().messages[2],
        Message::ToolResult { content, is_error: true, .. } if content == "broken"
    ));
}

#[test]
fn unknown_and_failing_tools_become_error_results() {
    let mut agent = Agent::builder()
        .model_provider()
        .tool(definition("slow", r#"{"type":"object"}"#, ToolExecutionMode::Parallel))
        .build();
    let (_, mut host, _) = slow_and_fast();
    host.scripts[0].fails = true;
    let mut run = agent.start_prompt("run two tools".into()).expect("run starts");
    host.drive(&mut run, &mut agent).expect("the run settles");
    let messages = agent.snapshot().messages;
    assert!(matches!(&messages[2], Message::ToolResult { is_error: true, .. }));
    assert!(matches!(
        &messages[3],
        Message::ToolResult { content, is_error: true, .. } if content == "Tool fast not found"
    ));
}

#[test]
fn truncated_responses_execute_no_tool() {
    let mut agent = Agent::builder()
        .model_provider()
        .tool(definition("slow", r#"{"type":"object"}"#, ToolExecutionMode::Parallel))
        .build();
    let mut host = Host::new(vec![
        ModelStream {
            events: vec![
                ModelStreamEvent::ToolCall(assistant_call("call_slow", "slow", "{")),
                ModelStreamEvent::End(StopReason::Length),
            ],
        },
        text_stream("done"),
    ]);
    host.scripts.push(script("slow", "slow"));
    let mut run = agent.start_prompt("prompt".into()).expect("run starts");
    host.drive(&mut run, &mut agent).expect("the run settles");
    assert!(host.executed.is_empty());
    assert!(matches!(
        &agent.snapshot().messages[2],
        Message::ToolResult { content, is_error: true, .. }
            if content.starts_with("Tool call \"slow\" was not executed")
    ));
}

#[test]
fn malformed_streams_fail_the_run() {
    for events in [
        vec![ModelStreamEvent::TextDelta("no end".into())],
        vec![
            ModelStreamEvent::End(StopReason::EndTurn),
            ModelStreamEvent::TextDelta("late".into()),
        ],
        vec![
            ModelStreamEvent::ToolCall(assistant_call("call", "slow", "{}")),
            ModelStreamEvent::End(StopReason::EndTurn),
        ],
    ] {
        let mut agent = Agent::builder().model_provider().build();
        let mut host = Host::new(vec![ModelStream { events }]);
        let mut run = agent.start_prompt("prompt".into()).expect("run starts");
        assert!(matches!(
            host.drive(&mut run, &mut agent),
            Err(CoreError::UnsupportedModelStream { .. })
        ));
        assert_eq!(run.snapshot().phase, RunPhase::Failed);
        assert_eq!(agent.snapshot().phase, AgentPhase::Idle);
    }
}

#[test]
fn provider_errors_and_aborts_have_their_own_outcomes() {
    for (event, aborted) in [
        (ModelStreamEvent::Error { message: "boom".into() }, false),
        (ModelStreamEvent::Aborted { message: "stopped".into() }, true),
    ] {
        let mut agent = Agent::builder().model_provider().build();
        let mut host = Host::new(vec![ModelStream { events: vec![event] }]);
        let mut run = agent.start_prompt("prompt".into()).expect("run starts");
        let error = host.drive(&mut run, &mut agent).expect_err("the response failed");
        assert_eq!(matches!(error, CoreError::ModelAborted { .. }), aborted);
        assert_eq!(matches!(error, CoreError::ModelError { .. }), !aborted);
        assert_eq!(agent.snapshot().phase, AgentPhase::Idle);
        assert!(agent.snapshot().last_error.is_some());
    }
    let mut agent = Agent::builder().build();
    let mut host = Host::new(Vec::new());
    let mut run = agent.start_prompt("prompt".into()).expect("run starts");
    assert_eq!(host.drive(&mut run, &mut agent), Err(CoreError::MissingModelProvider));
}

#[test]
fn usage_is_published_and_accumulated_without_estimates() {
    let usage = |input: u64, cost: &str| Usage {
        input_tokens: Some(input),
        cost: Some(cost.into()),
        ..Usage::default()
    };
    let stream = |input: u64, cost: &str| ModelStream {
        events: vec![
            ModelStreamEvent::TextDelta("ok".into()),
            ModelStreamEvent::Usage(usage(input, cost)),
            ModelStreamEvent::End(StopReason::EndTurn),
        ],
    };
    let mut agent = Agent::builder().model_provider().build();
    let mut host = Host::new(vec![stream(2, "0.1"), stream(3, "0.2")]);
    agent.enqueue_follow_up("again".into()).expect("queued");
    let mut run = agent.start_prompt("prompt".into()).expect("run starts");
    host.drive(&mut run, &mut agent).expect("the run settles");
    let accounting = agent.snapshot().accounting;
    assert_eq!(accounting.turns.len(), 2);
    assert_eq!(accounting.aggregate.input_tokens, Some(5));
    assert_eq!(accounting.aggregate.output_tokens, None);
    assert_eq!(accounting.aggregate.cost.as_deref(), Some("0.3"));
    assert!(run
        .events()
        .iter()
        .any(|event| matches!(event.kind, AgentEventKind::ModelTurnUsage { .. })));
}

#[test]
fn agent_allows_one_run_and_drop_settles_cancellation() {
    let mut agent = Agent::builder().build();
    let mut run = agent.start_prompt("first".into()).expect("first run should start");
    assert!(matches!(agent.snapshot().phase, AgentPhase::Running(_)));

    let second = agent.start_prompt("second".into());
    assert!(matches!(second, Err(CoreError::ActiveRun { .. })));

    run.abort(&mut agent).expect("a created run settles when its handle is given up");
    drop(run);
    assert_eq!(agent.snapshot().phase, AgentPhase::Idle);
    assert!(!agent.snapshot().is_streaming);
    assert!(agent.snapshot().pending_tool_calls.is_empty());
}

#[test]
fn explicit_abort_settles_the_run_handle() {
    let mut agent = Agent::builder().build();
    let mut run = agent.start_prompt("cancel me".into()).expect("run should start");
    agent.abort(&mut run);
    assert_eq!(run.snapshot().phase, RunPhase::Cancelled);
    assert_eq!(agent.snapshot().phase, AgentPhase::Idle);
}

#[test]
fn reset_is_idle_only_and_clears_retained_state_and_queues() {
    let mut agent = Agent::builder().build();
    agent
        .enqueue_steering("queued steering".into())
        .expect("idle queueing is explicit and allowed");
    agent
        .enqueue_follow_up("queued follow-up".into())
        .expect("idle queueing is explicit and allowed");
    let mut run = agent.start_prompt("retained until reset".into()).expect("run should start");

    assert!(matches!(agent.reset(), Err(CoreError::ActiveRun { .. })));
    agent.abort(&mut run);
    assert_eq!(run.snapshot().phase, RunPhase::Cancelled);
    agent.reset().expect("idle reset should succeed");

    let snapshot = agent.snapshot();
    assert!(snapshot.messages.is_empty());
    assert!(snapshot.last_error.is_none());
    assert!(!snapshot.is_streaming);
    assert!(snapshot.pending_tool_calls.is_empty());
    assert!(!agent.has_queued_messages());
}

#[test]
fn queue_modes_can_change_without_reconstructing_the_agent() {
    let mut agent = Agent::builder().build();
    assert_eq!(agent.steering_mode(), QueueMode::OneAtATime);
    assert_eq!(agent.follow_up_mode(), QueueMode::OneAtATime);

    agent.set_steering_mode(QueueMode::All);
    agent.set_follow_up_mode(QueueMode::All);

    assert_eq!(agent.steering_mode(), QueueMode::All);
    assert_eq!(agent.follow_up_mode(), QueueMode::All);
}

#[test]
fn queue_mode_preserves_insertion_order() {
    let mut queue = SteeringQueue::default();
    assert_eq!(queue.push("a".into()), 1);
    assert_eq!(queue.push("b".into()), 2);
    assert_eq!(queue.drain(QueueMode::OneAtATime).len(), 1);
    assert_eq!(
        queue
            .drain(QueueMode::All)
            .into_iter()
            .map(|item| item.content)
            .collect::<Vec<_>>(),
        vec!["b"]
    );
}

#[test]
fn parallel_completions_return_to_source_order_for_context() {
    let scheduler = Scheduler;
    let calls = (1..=3)
        .map(|id| {
            (
                ToolCall {
                    id: ToolCallId::new(format!("provider-call-{id}"))
                        .expect("non-empty test tool-call ID"),
                    name: format!("tool-{id}"),
                    arguments: SerializedJson::new("{}".into()),
                },
                ToolExecutionMode::Parallel,
            )
        })
        .collect::<Vec<_>>();
    let batch = scheduler.plan_tool_batch(calls);
    let mut completions = CompletionSet::default();
    assert_eq!(completions.len(), 0);
    for number in [3, 1, 2] {
        batch
            .record_completion(
                &mut completions,
                plain_result(id(&format!("provider-call-{number}")), &format!("{number}")),
            )
            .expect("planned call");
    }
    assert_eq!(
        completions
            .in_source_order(&batch)
            .into_iter()
            .map(|result| result.content)
            .collect::<Vec<_>>(),
        vec!["1", "2", "3"]
    );
    assert_eq!(completions.len(), 3);
    assert!(matches!(
        batch.record_completion(&mut completions, plain_result(id("provider-call-1"), "again")),
        Err(SchedulerError::DuplicateCompletion { .. })
    ));
    assert_eq!(completions.len(), 3);
    assert_eq!(completions.in_source_order(&batch)[0].content, "again");
    assert!(matches!(
        batch.record_completion(&mut completions, plain_result(id("other"), "1")),
        Err(SchedulerError::UnknownToolCall { .. })
    ));
    assert_eq!(completions.len(), 3);
}

#[test]
fn tool_call_identifier_preserves_provider_text_and_rejects_empty_values() {
    let id = ToolCallId::new("provider-tool-call_42".into()).expect("non-empty provider ID");

    assert_eq!(id.as_str(), "provider-tool-call_42");
    assert!(ToolCallId::new("".into()).is_err());
}

#[test]
fn public_request_boundaries_reach_sequential_provider_requests() {
    let initial = ModelDescriptor {
        provider: "initial-provider".into(),
        model: "initial-model".into(),
        revision: Some("initial-revision".into()),
    };
    let mut agent = Agent::builder()
        .model(initial.clone())
        .thinking_level(ThinkingLevel::Low)
        .host_message(SerializedJson::new("host-only".into()))
        .model_provider()
        .tool(definition("echo", r#"{"type":"object"}"#, ToolExecutionMode::Parallel))
        .build();
    let mut host = Host::new(vec![
        call_stream(vec![assistant_call("call_echo", "echo", r#"{"value":"hello"}"#)]),
        text_stream("done"),
    ]);
    host.scripts.push(script("echo", "echoed"));
    host.transform = |mut context| {
        context.host_messages.push(SerializedJson::new("transformed".into()));
        context
    };
    host.convert = |context| {
        let host_messages =
            context.host_messages.iter().map(|m| m.as_str()).collect::<Vec<_>>().join("|");
        format!("converted:{host_messages}")
    };
    host.prepare = |_| NextTurn {
        context: Some(ContextEnvelope {
            version: 1,
            messages: Vec::new(),
            host_messages: vec![SerializedJson::new("replacement".into())],
        }),
        model: Some(ModelDescriptor {
            provider: "next-provider".into(),
            model: "next-model".into(),
            revision: Some("next-revision".into()),
        }),
        thinking_level: Some(ThinkingLevel::High),
    };
    let mut run = agent.start_prompt("invoke echo".into()).expect("start prompt");
    host.drive(&mut run, &mut agent).expect("scripted run succeeds");

    assert_eq!(host.requests.len(), 2);
    assert_eq!(host.requests[0].context, "converted:host-only|transformed");
    assert_eq!(host.requests[0].model, Some(initial));
    assert_eq!(host.requests[0].thinking_level, ThinkingLevel::Low);
    assert_eq!(host.requests[1].context, "converted:replacement|transformed");
    assert_eq!(
        host.requests[1].model,
        Some(ModelDescriptor {
            provider: "next-provider".into(),
            model: "next-model".into(),
            revision: Some("next-revision".into()),
        })
    );
    assert_eq!(host.requests[1].thinking_level, ThinkingLevel::High);
}

#[test]
fn tool_start_observer_receives_exact_arguments_before_dispatch_and_settlement() {
    let mut agent = Agent::builder()
        .model_provider()
        .tool(definition("audit", r#"{"type":"object"}"#, ToolExecutionMode::Parallel))
        .build();
    let mut host = Host::new(vec![
        call_stream(vec![assistant_call("call-audit", "audit", r#"{"secret":"value"}"#)]),
        text_stream("done"),
    ]);
    host.scripts.push(script("audit", "ok"));

    let mut run = agent.start_prompt("audit this".into()).expect("start run");
    host.drive(&mut run, &mut agent).expect("scripted run succeeds");

    assert_eq!(
        host.log,
        [
            "start:call-audit:audit:{\"secret\":\"value\"}",
            "execute:call-audit:{\"secret\":\"value\"}",
            "end:call-audit",
        ]
    );
    let start = run
        .events()
        .into_iter()
        .find_map(|event| match event.kind {
            AgentEventKind::ToolExecutionStart { arguments, .. } => Some(arguments),
            _ => None,
        })
        .expect("tool-start event");
    assert_eq!(start.as_str(), r#"{"secret":"value"}"#);
    assert_eq!(run.snapshot().phase, RunPhase::Succeeded);
    assert_eq!(agent.snapshot().phase, AgentPhase::Idle);
    assert!(run
        .events()
        .last()
        .is_some_and(|event| matches!(event.kind, AgentEventKind::AgentEnd { .. })));
}

fn compact(
    handle: &mut CompactionHandle,
    agent: &mut Agent,
    cancelled: bool,
    compactor: fn(Vec<Message>) -> Result<CompactionResult, CompactionError>,
) -> Result<(), CoreError> {
    let mut input = CompactionInput::Drive;
    loop {
        input = match handle.step(agent, input, cancelled) {
            CompactionAction::Publish(_) => CompactionInput::Published,
            CompactionAction::Compact(context) => {
                CompactionInput::Compacted(compactor(context.messages))
            }
            CompactionAction::Done(outcome) => return outcome,
        };
    }
}

fn keep_first(mut messages: Vec<Message>) -> Result<CompactionResult, CompactionError> {
    messages.truncate(1);
    Ok(CompactionResult::new(messages))
}

fn answered_agent(host: &mut Host) -> Agent {
    let mut agent = Agent::builder().model_provider().compactor().build();
    let mut run = agent.start_prompt("first prompt".into()).expect("first run starts");
    host.drive(&mut run, &mut agent).expect("first run succeeds");
    agent
}

#[test]
fn compaction_replaces_context_emits_its_grammar_and_allows_reuse() {
    let mut host = Host::new(vec![text_stream("first answer"), text_stream("second answer")]);
    let mut agent = answered_agent(&mut host);

    let mut compaction = agent.start_compaction().expect("compaction starts");
    compact(&mut compaction, &mut agent, false, keep_first).expect("compaction succeeds");

    assert_eq!(agent.snapshot().messages.len(), 1);
    assert!(compaction.events().iter().any(|event| {
        matches!(event.kind, AgentEventKind::CompactionStart { source_message_count: 2 })
    }));
    assert!(compaction.events().iter().any(|event| {
        matches!(
            event.kind,
            AgentEventKind::CompactionResult { retained_message_count: 1, .. }
        )
    }));
    assert!(matches!(
        compaction.events().last().map(|event| &event.kind),
        Some(AgentEventKind::CompactionEnd {
            outcome: CompactionOutcome::Succeeded { retained_message_count: 1 }
        })
    ));

    let mut second = agent
        .start_prompt("second prompt".into())
        .expect("compacted agent is idle and reusable");
    host.drive(&mut second, &mut agent).expect("second run succeeds");
}

#[test]
fn invalid_replacement_and_compactor_failure_preserve_history() {
    let mut host = Host::new(vec![text_stream("answer")]);
    let mut agent = answered_agent(&mut host);
    let original = agent.snapshot().messages;
    let mut handle = agent.start_compaction().expect("compaction reserves idle agent");
    let error = compact(&mut handle, &mut agent, false, |messages| {
        Ok(CompactionResult::new(vec![messages[0].clone(), messages[0].clone()]))
    })
    .expect_err("duplicate message IDs are invalid");
    assert!(matches!(error, CoreError::Compaction(_)));
    assert_eq!(agent.snapshot().messages, original);

    let mut host = Host::new(vec![text_stream("answer")]);
    let mut agent = answered_agent(&mut host);
    let original = agent.snapshot().messages;
    let mut handle = agent.start_compaction().expect("compaction reserves idle agent");
    let error = compact(&mut handle, &mut agent, false, |_| {
        Err(CompactionError::failed("fixture compactor failed".into()))
    })
    .expect_err("compactor failure is surfaced");
    assert!(matches!(error, CoreError::Compaction(_)));
    assert_eq!(agent.snapshot().messages, original);
}

#[test]
fn compaction_rejects_an_active_run_and_cancellation_preserves_history() {
    let mut agent = Agent::builder().model_provider().compactor().build();
    let mut active = agent.start_prompt("active".into()).expect("run starts");
    assert!(matches!(agent.start_compaction(), Err(CoreError::ActiveRun { .. })));
    active.abort(&mut agent).expect("created run aborts");

    let original = agent.snapshot().messages;
    let mut cancellable = agent.start_compaction().expect("compaction starts");
    cancellable.abort(&mut agent).expect("compaction aborts");
    assert!(matches!(
        compact(&mut cancellable, &mut agent, true, keep_first),
        Err(CoreError::Cancelled)
    ));
    assert!(matches!(
        cancellable.events().last().map(|event| &event.kind),
        Some(AgentEventKind::CompactionEnd { outcome: CompactionOutcome::Cancelled })
    ));
    assert_eq!(agent.snapshot().messages, original);

    let mut bare = Agent::builder().build();
    assert!(matches!(bare.start_compaction(), Err(CoreError::MissingCompactor)));
}

#[test]
fn replacements_must_be_coherent() {
    let user = |id: u64| Message::User { id: MessageId(id), content: "hi".into() };
    assert!(validate_messages(&vec![user(1), user(2)]).is_ok());
    assert!(matches!(
        validate_messages(&vec![user(1), user(1)]),
        Err(CompactionError::InvalidReplacement { .. })
    ));
    let orphan = Message::ToolResult {
        id: MessageId(2),
        tool_call_id: id("call"),
        tool_name: "echo".into(),
        content: "x".into(),
        details: None,
        usage: None,
        added_tool_names: Vec::new(),
        is_error: false,
    };
    assert!(validate_messages(&vec![user(1), orphan]).is_err());
}

fn observe(observer: &mut TraceObserver, sink: &mut Vec<TraceEvent>, kind: AgentEventKind) {
    let event = AgentEvent { run_id: RunId(1), sequence: EventSequence(1), kind };
    if let Some(record) = observer.record(&event) {
        sink.push(record);
    }
}

#[test]
fn maps_lifecycle_events_to_one_linear_episode() {
    let mut observer = TraceObserver::new("episode-1".into());
    let mut events = Vec::new();
    let user = Message::User { id: MessageId(1), content: "hello".into() };
    for kind in [
        AgentEventKind::AgentStart,
        AgentEventKind::TurnStart { turn_id: TurnId(1) },
        AgentEventKind::MessageStart { message: user.clone() },
        AgentEventKind::MessageEnd { message: user },
        AgentEventKind::MessageEnd {
            message: Message::Assistant {
                id: MessageId(2),
                content: "world".into(),
                tool_calls: vec![assistant_call("call-1", "echo", "{}")],
                stop_reason: Some(StopReason::ToolUse),
                error_message: None,
            },
        },
        AgentEventKind::ToolExecutionStart {
            tool_call_id: id("call-1"),
            tool_name: "echo".into(),
            arguments: SerializedJson::new("{}".into()),
        },
        AgentEventKind::ToolExecutionUpdate {
            tool_call_id: id("call-1"),
            tool_name: "echo".into(),
            update: ToolUpdate {
                content: "partial".into(),
                details: Some(SerializedJson::new("null".into())),
            },
        },
        AgentEventKind::ToolExecutionEnd {
            tool_call_id: id("call-1"),
            tool_name: "echo".into(),
            result: plain_result(id("call-1"), "result"),
        },
        AgentEventKind::TurnEnd { turn_id: TurnId(1), reason: StopReason::ToolUse },
        AgentEventKind::AgentEnd { messages: vec![] },
    ] {
        observe(&mut observer, &mut events, kind);
    }

    assert_eq!(events.len(), 4);
    assert!(matches!(events[0], TraceEvent::EpisodeHeader { .. }));
    assert!(matches!(events[1], TraceEvent::Tool(_)));
    assert!(matches!(events[2], TraceEvent::Turn(_)));
    assert!(matches!(events[3], TraceEvent::EpisodeEnd { .. }));
    let TraceEvent::Tool(tool) = &events[1] else { unreachable!() };
    assert_eq!(tool.output.as_deref(), Some("result"));
    let TraceEvent::Turn(turn) = &events[2] else { unreachable!() };
    assert_eq!(turn.input, "hello");
    assert_eq!(turn.output.as_deref(), Some("world"));
}

#[test]
fn sink_failures_are_isolated_from_event_observation() {
    let mut observer = TraceObserver::new("episode-1".into());
    for kind in [AgentEventKind::AgentStart, AgentEventKind::AgentEnd { messages: vec![] }] {
        let event = AgentEvent { run_id: RunId(1), sequence: EventSequence(1), kind };
        if observer.record(&event).is_some() {
            observer.reject();
        }
    }
    assert_eq!(observer.failed_events(), 2);
}

#[test]
fn validator_accepts_matching_arguments_and_rejects_a_missing_required_property() {
    let schema = JsonValue::parse(
        r#"{"type":"object","required":["text"],"properties":{"text":{"type":"string"}}}"#,
    )
    .expect("schema JSON");

    validate_tool_arguments(
        "echo",
        &schema,
        &SerializedJson::new(r#"{"text":"hello"}"#.into()),
    )
    .expect("matching arguments");
    let error = validate_tool_arguments("echo", &schema, &SerializedJson::new("{}".into()))
        .expect_err("required property must be enforced");
    assert!(matches!(error, ToolError::InvalidArguments { .. }));
    assert!(validate_tool_arguments("echo", &schema, &SerializedJson::new("{".into())).is_err());
}

#[test]
fn closed_calls_add_no_updates() {
    let update = |call: &str| PendingToolUpdate {
        tool_call_id: id(call),
        tool_name: "echo".into(),
        update: ToolUpdate { content: "x".into(), details: None },
    };
    let mut updates = PendingToolUpdates::new();
    assert!(updates.take().is_none());
    assert!(updates.push(update("a")));
    updates.close(&id("a"));
    assert!(!updates.push(update("a")));
    assert!(updates.push(update("b")));
    assert_eq!(updates.take().expect("two updates wait").len(), 2);
    assert!(updates.take().is_none());
}

#[test]
fn an_answer_out_of_step_fails_the_run() {
    let mut agent = Agent::builder().model_provider().build();
    let mut run = agent.start_prompt("prompt".into()).expect("run starts");
    let mut action = run.advance(&mut agent, RunInput::Connected, false);
    while !matches!(action, RunAction::Done(_)) {
        action = run.advance(&mut agent, RunInput::Published, false);
    }
    assert!(matches!(action, RunAction::Done(Err(CoreError::InvalidTransition(_)))));
    assert_eq!(run.snapshot().phase, RunPhase::Failed);
    assert_eq!(agent.snapshot().phase, AgentPhase::Idle);
    let again = run.advance(&mut agent, RunInput::Drive, false);
    assert!(matches!(again, RunAction::Done(Err(_))));
    assert_eq!(run.snapshot().phase, RunPhase::Failed);
}
