//! Parity fixtures and the coding evaluation.

use pi_agent_core::agent::Agent;
use pi_agent_core::error::CoreError;
use pi_agent_core::evaluation::{
    accept_task, parse_openrouter_response, read_task, report, request_payload, response_stream,
    EvaluationArgs, UsageTotals,
};
use pi_agent_core::fixture::{Fixture, FixtureAction};
use pi_agent_core::hooks::NextTurn;
use pi_agent_core::json::JsonValue;
use pi_agent_core::parity::{
    act, build_agent, single_fixture_path, FixtureHooks, FixtureProvider, FixtureReport, FixtureTool,
};
use pi_agent_core::run::RunHandle;
use pi_agent_core::scheduler::{ModelRequest, ModelStreamEvent};
use pi_agent_core::state::{StopReason, Usage};
use pi_agent_core::tool::ToolCall;
use pi_agent_core::transition::{PendingToolUpdate, RunAction, RunInput};
use std::collections::VecDeque;

const FIXTURE: &str = r#"{
    "format_version": 1,
    "kind": "declarative_parity_fixture",
    "id": "two-tools",
    "setup": {
        "system_prompt": "Be brief.",
        "model": {"provider": "fixture", "id": "scripted"},
        "thinking_level": "low",
        "tools": [
            {"name": "slow", "description": "Slow", "parameters": {"type": "object"}},
            {"name": "fast", "description": "Fast", "parameters": {"type": "object"}}
        ]
    },
    "host": {
        "tools": [
            {"name": "slow", "calls": [{
                "arguments": {"n": 1},
                "result": {"content": [{"type": "text", "text": "slow done"}], "is_error": false},
                "yield_once": true,
                "updates": ["half"]
            }]},
            {"name": "fast", "calls": [{
                "arguments": {},
                "result": {"content": [{"type": "text", "text": "fast done"}], "is_error": false}
            }]}
        ],
        "after_tool_call": {"tool_name": "fast", "content": "reviewed", "is_error": true}
    },
    "actions": [
        {"kind": "follow_up", "text": "and then?"},
        {"kind": "prompt", "text": "go"}
    ],
    "model_script": [
        {"chunks": [
            {"kind": "tool_call", "id": "c1", "name": "slow", "arguments": {"n": 1}},
            {"kind": "tool_call", "id": "c2", "name": "fast", "arguments": {}},
            {"kind": "done", "stop_reason": "tool_call",
             "usage": {"input": 1, "output": 1, "cache_read": 0, "cache_write": 0, "total_tokens": 2}}
        ]},
        {"chunks": [
            {"kind": "text_delta", "text": "done"},
            {"kind": "done", "stop_reason": "stop",
             "usage": {"input": 3, "output": 4, "cache_read": 5, "cache_write": 6, "total_tokens": 18}}
        ]},
        {"chunks": [
            {"kind": "text_delta", "text": "more"},
            {"kind": "done", "stop_reason": "stop",
             "usage": {"input": 7, "output": 8, "cache_read": 0, "cache_write": 0, "total_tokens": 15}}
        ]}
    ]
}"#;

fn drive(
    fixture: &Fixture,
    provider: &mut FixtureProvider,
    tools: &mut Vec<(String, FixtureTool)>,
    run: &mut RunHandle,
    agent: &mut Agent,
) -> Result<(), CoreError> {
    let hooks = FixtureHooks {
        before_tool_block: fixture.before_tool_block.clone(),
        after_tool_replace: fixture.after_tool_replace.clone(),
    };
    let mut stream: VecDeque<ModelStreamEvent> = VecDeque::new();
    let mut allowed: VecDeque<ToolCall> = VecDeque::new();
    let mut running = Vec::new();
    let mut updates = Vec::new();
    let mut input = RunInput::Drive;
    loop {
        input = match run.advance(agent, input, false) {
            RunAction::Publish(_) => RunInput::Published,
            RunAction::TransformContext(context) => RunInput::Context(context),
            RunAction::ConvertContext(_) => RunInput::Converted("[]".into()),
            RunAction::OpenStream(_) => match provider.stream() {
                Ok(next) => {
                    stream = next.events.into();
                    RunInput::Connected
                }
                Err(_) => RunInput::Failed(CoreError::ModelProvider { message: "empty".into() }),
            },
            RunAction::NextStreamEvent => RunInput::Stream(stream.pop_front()),
            RunAction::BeforeToolCall { call, .. } => {
                let decision = hooks.before_tool_call(&call);
                if matches!(decision, pi_agent_core::hooks::BeforeToolCall::Allow) {
                    allowed.push_back(call);
                }
                RunInput::Before(Ok(decision))
            }
            RunAction::StartTools(indices) => {
                for index in indices {
                    let call = allowed.pop_front().expect("an allowed call per index");
                    let (id, name) = (call.id.clone(), call.name.clone());
                    let tool = tools.iter_mut().find(|tool| tool.0 == name).expect("a tool");
                    let reply = tool.1.execute(call);
                    for update in reply.updates {
                        updates.push(PendingToolUpdate {
                            tool_call_id: id.clone(),
                            tool_name: name.clone(),
                            update,
                        });
                    }
                    running.push((index, reply.yield_once, reply.result));
                }
                RunInput::Launched
            }
            RunAction::AwaitTools => {
                if !updates.is_empty() {
                    RunInput::Updates(std::mem::take(&mut updates))
                } else {
                    let at = running.iter().position(|entry| !entry.1).unwrap_or(0);
                    for entry in running.iter_mut() {
                        entry.1 = false;
                    }
                    let (index, _, execution) = running.swap_remove(at);
                    RunInput::Completed { index, execution, updates: Vec::new() }
                }
            }
            RunAction::FlushUpdates => RunInput::Flushed(Vec::new()),
            RunAction::AfterToolCall { call, .. } => RunInput::After(Ok(hooks.after_tool_call(&call))),
            RunAction::PrepareNextTurn(_) => RunInput::NextTurn(NextTurn::default()),
            RunAction::AskStop(_) => RunInput::Stop(false),
            RunAction::Done(outcome) => return outcome,
            _ => unreachable!("not asked of this host"),
        };
    }
}

fn run_fixture(text: &str) -> Result<JsonValue, String> {
    let mut fixture = Fixture::parse(text)?;
    let mut agent = build_agent(&fixture)?;
    let mut provider = FixtureProvider::new(&fixture.turns);
    let mut tools: Vec<(String, FixtureTool)> = fixture
        .tools
        .iter_mut()
        .map(|tool| {
            (tool.name.clone(), FixtureTool::new(std::mem::take(&mut tool.responses)))
        })
        .collect();
    let mut report = FixtureReport::new();
    for action in fixture.actions.clone() {
        if let Some(mut run) = act(&mut agent, action).map_err(|error| error.text())? {
            drive(&fixture, &mut provider, &mut tools, &mut run, &mut agent)
                .map_err(|error| error.text())?;
            report = report.record(&run.events())?;
        }
    }
    report.result(&fixture, &agent.snapshot(), provider.is_empty())
}

#[test]
fn a_fixture_runs_to_its_canonical_result() {
    let result = run_fixture(FIXTURE).expect("the fixture settles");
    let text = |path: &[&str]| {
        let mut value = &result;
        for step in path {
            value = value.get(step).expect("a member");
        }
        value.as_str().expect("a string").to_owned()
    };
    assert_eq!(text(&["kind"]), "canonical_parity_result");
    assert_eq!(text(&["fixture_id"]), "two-tools");
    assert_eq!(text(&["state", "system_prompt"]), "Be brief.");
    assert_eq!(text(&["state", "model", "id"]), "scripted");
    assert_eq!(text(&["state", "thinking_level"]), "low");
    assert_eq!(text(&["last_response", "stop_reason"]), "stop");
    assert_eq!(
        result.get("usage").and_then(|usage| usage.get("total_tokens")).and_then(JsonValue::as_u64),
        Some(15)
    );
    let events = result.get("events").and_then(JsonValue::as_array).expect("events");
    for (index, event) in events.iter().enumerate() {
        assert_eq!(event.get("seq").and_then(JsonValue::as_u64), Some(index as u64));
    }
    let kinds: Vec<&str> =
        events.iter().map(|event| event.get("type").and_then(JsonValue::as_str).unwrap()).collect();
    assert_eq!(kinds.first(), Some(&"agent_start"));
    assert_eq!(kinds.last(), Some(&"agent_settled"));
    assert_eq!(kinds.iter().filter(|kind| **kind == "turn_start").count(), 3);
    let ends: Vec<&str> = events
        .iter()
        .filter(|event| event.get("type").and_then(JsonValue::as_str) == Some("tool_execution_end"))
        .map(|event| {
            event
                .get("data")
                .and_then(|data| data.get("tool_call_id"))
                .and_then(JsonValue::as_str)
                .unwrap()
        })
        .collect();
    assert_eq!(ends, ["c2", "c1"]);
    let messages = result.get("messages").and_then(JsonValue::as_array).expect("messages");
    assert_eq!(messages.len(), 7);
    assert_eq!(
        messages[1].to_json_string(),
        r#"{"content":[{"arguments":{"n":1},"id":"c1","name":"slow","type":"tool_call"},{"arguments":{},"id":"c2","name":"fast","type":"tool_call"}],"role":"assistant"}"#
    );
    assert_eq!(
        messages[3].to_json_string(),
        r#"{"content":[{"text":"reviewed","type":"text"}],"role":"tool_result"}"#
    );
}

#[test]
fn fixtures_are_refused_with_the_first_fault() {
    let cases = [
        ("[]", "fixture must be an object"),
        ("{}", "fixture is missing required field \"format_version\""),
        (r#"{"format_version":2}"#, "expected format_version 1 declarative_parity_fixture"),
        (
            r#"{"format_version":1,"kind":3}"#,
            "fixture field \"kind\" must be a string",
        ),
    ];
    for (text, expected) in cases {
        assert_eq!(Fixture::parse(text).err().as_deref(), Some(expected));
    }
    let broken = |from: &str, to: &str| Fixture::parse(&FIXTURE.replacen(from, to, 1)).err();
    assert_eq!(
        broken("\"name\": \"fast\", \"calls\"", "\"name\": \"slow\", \"calls\"").as_deref(),
        Some("host.tools[1] repeats \"slow\"")
    );
    assert_eq!(
        broken("\"kind\": \"follow_up\"", "\"kind\": \"dance\"").as_deref(),
        Some("the V0 runner does not support action \"dance\"")
    );
    assert_eq!(
        broken("\"thinking_level\": \"low\"", "\"thinking_level\": \"loud\"").as_deref(),
        Some("unsupported thinking level \"loud\"")
    );
    assert_eq!(
        broken("\"stop_reason\": \"tool_call\"", "\"stop_reason\": \"nap\"").as_deref(),
        Some("unsupported model stop reason \"nap\"")
    );
    assert_eq!(
        broken("\"updates\": [\"half\"]", "\"updates\": [1]").as_deref(),
        Some("host tool call updates[0] must be a string")
    );
    assert!(Fixture::parse("{").is_err());
}

#[test]
fn unused_turns_and_exhausted_scripts_are_told() {
    let short = FIXTURE.replacen("{\"kind\": \"follow_up\", \"text\": \"and then?\"},", "", 1);
    assert_eq!(
        run_fixture(&short).err().as_deref(),
        Some("model_script contains unused turns")
    );
    let mut provider = FixtureProvider::new(&Vec::new());
    assert!(provider.stream().is_err());
    let mut agent = Agent::builder().build();
    assert!(act(&mut agent, FixtureAction::Continue).is_err());
}

fn strings(items: &[&str]) -> Vec<String> {
    items.iter().map(|item| (*item).to_owned()).collect()
}

const ARGS: [&str; 14] = [
    "--model", "m", "--task-json", "t", "--workspace", "w", "--capabilities-json", "c",
    "--result-json", "r", "--attempt-id", "a", "--baseline-id", "b",
];

#[test]
fn evaluation_arguments_are_explicit() {
    let args = EvaluationArgs::parse(&strings(&ARGS)).expect("complete arguments");
    assert_eq!(args.model, "m");
    assert_eq!(args.baseline_id, "b");
    assert_eq!(
        EvaluationArgs::parse(&strings(&["x"])).err().as_deref(),
        Some("unexpected positional argument \"x\"")
    );
    assert_eq!(
        EvaluationArgs::parse(&strings(&["--model"])).err().as_deref(),
        Some("missing value for --model")
    );
    assert_eq!(
        EvaluationArgs::parse(&strings(&["--model", "m", "--model", "n"])).err().as_deref(),
        Some("evaluation adapter arguments must not repeat flags")
    );
    assert_eq!(
        EvaluationArgs::parse(&strings(&["--model", ""])).err().as_deref(),
        Some("missing required argument --model")
    );
}

#[test]
fn tasks_must_match_their_manifest() {
    let task = br#"{"prompt":"fix it","capabilities":{"b":[1],"a":2}}"#;
    assert_eq!(read_task(task, br#"{"a":2,"b":[1]}"#), Ok("fix it".into()));
    assert_eq!(
        read_task(task, br#"{"a":2,"b":[]}"#).err().as_deref(),
        Some("evaluation capability manifest does not match task")
    );
    assert_eq!(read_task(b"{", b"{}").err().as_deref(), Some("evaluation task is not JSON"));
    assert_eq!(
        read_task(b"{}", b"{").err().as_deref(),
        Some("evaluation capabilities are not JSON")
    );
    let empty = JsonValue::parse(r#"{"prompt":"","capabilities":1}"#).unwrap();
    assert_eq!(
        accept_task(&empty, &JsonValue::unsigned(1)).err().as_deref(),
        Some("evaluation task has no prompt")
    );
}

#[test]
fn evaluation_turns_are_sent_read_and_reported() {
    let request = ModelRequest {
        system_prompt: "sys".into(),
        context: r#"[{"role":"user","content":"hi"}]"#.into(),
        ..ModelRequest::default()
    };
    assert_eq!(
        request_payload("m", 1024, &request).expect("payload"),
        r#"{"max_tokens":1024,"messages":[{"content":"sys","role":"system"},{"content":"hi","role":"user"}],"model":"m","stream":false,"temperature":0}"#
    );
    let broken = ModelRequest { context: "{}".into(), ..ModelRequest::default() };
    assert_eq!(
        request_payload("m", 1, &broken).err().as_deref(),
        Some("evaluation transport received invalid converted context")
    );

    let completion = parse_openrouter_response(
        br#"{"choices":[{"message":{"content":"ok"},"finish_reason":"length"}],
             "usage":{"prompt_tokens":2,"completion_tokens_details":{"reasoning_tokens":1}}}"#,
    )
    .expect("a completion");
    let mut totals = UsageTotals::new();
    assert!(totals.fits(&completion.usage));
    totals.add(&completion.usage);
    assert_eq!(totals.usage.input_tokens, Some(2));
    assert_eq!(totals.usage.output_tokens, Some(0));
    assert_eq!(totals.usage.reasoning_tokens, Some(1));
    assert!(!totals.fits(&Usage { input_tokens: Some(u64::MAX), ..Usage::default() }));
    let stream = response_stream(Ok(completion));
    assert_eq!(stream.events.len(), 3);
    assert!(matches!(stream.events[1], ModelStreamEvent::Usage(_)));
    assert_eq!(stream.events[2], ModelStreamEvent::End(StopReason::Length));
    assert_eq!(
        parse_openrouter_response(br#"{"error":{}}"#).err().as_deref(),
        Some("OpenRouter rejected the evaluation request")
    );
    assert_eq!(
        parse_openrouter_response(b"<html>").err().as_deref(),
        Some("OpenRouter returned a non-JSON evaluation response")
    );

    let args = EvaluationArgs::parse(&strings(&ARGS)).expect("complete arguments");
    let failed = Err(CoreError::ModelProvider { message: "secret detail".into() });
    let text = report(&args, &failed, &Vec::new(), &Vec::new(), &totals).to_json_string();
    assert!(!text.contains("secret detail"));
    assert_eq!(
        text,
        r#"{"attempt_id":"a","baseline_id":"b","final_text":"","schema_version":"pi-coding-eval-result/v0","terminal":{"code":"model_provider","status":"failed"},"tool_calls":0,"trace":[],"turns":0,"usage":{"cache_read":0,"cache_write":0,"input":2,"output":0}}"#
    );
}

#[test]
fn the_parity_program_takes_one_path() {
    assert_eq!(single_fixture_path(&vec!["a.json".to_owned()]), Ok("a.json".to_owned()));
    let refused = Err("expected exactly one declarative fixture path".to_owned());
    assert_eq!(single_fixture_path(&Vec::new()), refused);
    assert_eq!(single_fixture_path(&vec!["a".to_owned(), "b".to_owned()]), refused);
}
