//! JSON values, decimal texts and text helpers.

use pi_agent_core::decimal::decimal_add;
use pi_agent_core::evaluation::accept_task;
use pi_agent_core::agent::Agent;
use pi_agent_core::debug::{message_text, transcript_text};
use pi_agent_core::hooks::{AfterToolCall, BeforeToolCall, ContextEnvelope, HookSet, NextTurn, NoHooks};
use pi_agent_core::json::{JsonObject, JsonValue};
use pi_agent_core::provider::openai::OpenAiContextHook;
use pi_agent_core::state::{
    AssistantToolCall, Message, MessageId, ModelAccountingSnapshot, ModelTurnAccounting, RunId,
    RunPhase, SerializedJson, StopReason, ToolCallId, TurnId, Usage,
};
use pi_agent_core::text::trim;
use pi_agent_core::tool::{ToolCall, ToolResult};

#[test]
fn decimal_texts_add_exactly() {
    assert_eq!(decimal_add("0.1", "0.2").as_deref(), Some("0.3"));
    assert_eq!(decimal_add("1e2", "0.05").as_deref(), Some("100.05"));
    assert_eq!(decimal_add("1.50", "0.50").as_deref(), Some("2"));
    assert_eq!(
        decimal_add("0.100000000000000001", "0.2").as_deref(),
        Some("0.300000000000000001")
    );
    assert_eq!(decimal_add("99999999999999999999", "1").as_deref(), Some("100000000000000000000"));
    assert_eq!(decimal_add("2.5e-3", "1").as_deref(), Some("1.0025"));
    assert_eq!(decimal_add("x", "1"), None);
    assert_eq!(decimal_add("1e", "1"), None);
    assert_eq!(decimal_add("1e9223372036854775808", "1"), None);
    let small = decimal_add("1e-400", "1").expect("both are numbers");
    assert_eq!(small.len(), 402);
    assert!(small.starts_with("1.000") && small.ends_with("0001"));
    assert_eq!(decimal_add("1e400", "0").map(|sum| sum.len()), Some(401));
    assert_eq!(decimal_add("0.2", "0.1"), decimal_add("0.1", "0.2"));
}

#[test]
fn json_text_is_read_and_written_in_the_order_of_names() {
    let value = JsonValue::parse(r#"{"b":[1,-2,1.5,"x\n",null,true],"a":{}}"#).expect("JSON");
    assert_eq!(value.to_json_string(), r#"{"a":{},"b":[1,-2,1.5,"x\n",null,true]}"#);
    assert_eq!(JsonValue::parse(&value.to_json_string()).expect("JSON"), value);
    assert_eq!(value.get("b").and_then(JsonValue::as_array).map(Vec::len), Some(6));
    assert!(JsonValue::parse("{").is_err());
    let twice = JsonObject::new()
        .with("k", JsonValue::unsigned(1))
        .with("k", JsonValue::unsigned(2));
    assert_eq!(twice.get("k").and_then(JsonValue::as_u64), Some(2));
    assert!(JsonValue::object(twice).equals(&JsonValue::parse(r#"{"k":2}"#).unwrap()));
    assert!(!value.equals(&JsonValue::null()));
}

#[test]
fn zeros_compare_equal_and_whole_numbers_only_to_themselves() {
    let read = |text: &str| JsonValue::parse(text).expect("JSON");
    assert!(read(r#"{"a":[0.0,1]}"#).equals(&read(r#"{"a":[-0.0,1]}"#)));
    assert!(!read("0").equals(&read("0.0")));
    assert!(!read("[0.5]").equals(&read("[-0.5]")));
    assert!(!read(r#"{"a":0.0}"#).equals(&read(r#"{"b":0.0}"#)));
    assert!(read("1.50").equals(&read("15e-1")));
    assert_eq!(
        accept_task(
            &read(r#"{"capabilities":{"x":-0.0},"prompt":"go"}"#),
            &read(r#"{"x":0.0}"#),
        ),
        Ok("go".to_owned())
    );
}

#[test]
fn white_space_is_that_of_unicode() {
    let wide = "\u{85}\u{a0}\u{1680}\u{2000}\u{200a}\u{2028}\u{2029}\u{202f}\u{205f}\u{3000}";
    assert_eq!(trim(&format!("{wide}a\u{200b}\t\r\n {wide}")), "a\u{200b}");
    assert!(wide.chars().all(char::is_whitespace));
}

#[test]
fn conversations_convert_in_order() {
    let context = ContextEnvelope {
        version: 1,
        messages: vec![
            Message::User { id: MessageId(1), content: "hi".into() },
            Message::Assistant {
                id: MessageId(2),
                content: String::new(),
                tool_calls: Vec::new(),
                stop_reason: None,
                error_message: None,
            },
        ],
        host_messages: Vec::new(),
    };
    assert_eq!(
        OpenAiContextHook.convert_to_llm(&context),
        r#"[{"content":"hi","role":"user"},{"content":null,"role":"assistant","tool_calls":[]}]"#
    );
}

fn transcript() -> Vec<Message> {
    let id = || ToolCallId::new("c\"1".into()).expect("an identifier");
    let call = |name: &str| AssistantToolCall {
        id: id(),
        name: name.into(),
        arguments: SerializedJson::new("{\"n\":1}".into()),
    };
    let result = |details, usage, names: &[&str], is_error| Message::ToolResult {
        id: MessageId(20),
        tool_call_id: id(),
        tool_name: "read".into(),
        content: "tab\there".into(),
        details,
        usage,
        added_tool_names: names.iter().map(|name| (*name).to_owned()).collect(),
        is_error,
    };
    let usage = Usage {
        input_tokens: Some(120),
        output_tokens: None,
        reasoning_tokens: Some(0),
        cache_read_tokens: None,
        cache_write_tokens: Some(7),
        cost: Some("0.25".into()),
    };
    vec![
        Message::User { id: MessageId(1), content: "line\nbreak \u{e9}".into() },
        Message::Assistant {
            id: MessageId(2),
            content: String::new(),
            tool_calls: vec![call("read"), call("write")],
            stop_reason: Some(StopReason::ToolUse),
            error_message: None,
        },
        Message::Assistant {
            id: MessageId(3),
            content: "done".into(),
            tool_calls: Vec::new(),
            stop_reason: None,
            error_message: Some("why".into()),
        },
        result(None, None, &[], false),
        result(Some(SerializedJson::new("{}".into())), Some(usage), &["a", "b"], true),
    ]
}

#[test]
fn messages_print_as_their_debug_form() {
    let messages = transcript();
    for message in &messages {
        assert_eq!(message_text(message), format!("{message:?}"));
    }
    let lines: Vec<String> = messages.iter().map(|message| format!("{message:?}")).collect();
    assert_eq!(transcript_text(&messages), lines.join("\n"));
    assert_eq!(transcript_text(&Vec::new()), "");
}

#[test]
fn no_hooks_change_nothing() {
    let call = ToolCall {
        id: ToolCallId::new("c1".into()).expect("an identifier"),
        name: "read".into(),
        arguments: SerializedJson::new("{}".into()),
    };
    let result = ToolResult {
        tool_call_id: call.id.clone(),
        content: "ok".into(),
        details: None,
        usage: None,
        added_tool_names: Vec::new(),
        terminate: false,
        is_error: false,
    };
    let context =
        ContextEnvelope { version: 1, messages: transcript(), host_messages: Vec::new() };
    let hooks = NoHooks::default();
    assert_eq!(hooks.before_tool_call(&call), Ok(BeforeToolCall::Allow));
    assert_eq!(hooks.after_tool_call(&call, &result), Ok(AfterToolCall::default()));
    assert_eq!(hooks.transform_context(context.clone()), Ok(context.clone()));
    assert_eq!(hooks.convert_to_llm(context.clone()), Ok(transcript_text(&context.messages)));
    assert_eq!(hooks.should_stop_after_turn(&context), Ok(false));
    assert_eq!(hooks.prepare_next_turn(context), Ok(NextTurn::default()));
}

#[test]
fn unreported_usage_stays_unreported() {
    let mut accounting = ModelAccountingSnapshot::default();
    let turn = |usage| ModelTurnAccounting {
        run_id: RunId(1),
        turn_id: TurnId(1),
        model: None,
        usage,
    };
    accounting.record(turn(Usage { input_tokens: Some(0), ..Usage::default() }));
    assert_eq!(accounting.aggregate.input_tokens, Some(0));
    assert_eq!(accounting.aggregate.output_tokens, None);
    accounting.record(turn(Usage {
        input_tokens: Some(5),
        cost: Some("0.10".into()),
        ..Usage::default()
    }));
    assert_eq!(accounting.aggregate.input_tokens, Some(5));
    assert_eq!(accounting.aggregate.output_tokens, None);
    assert_eq!(accounting.aggregate.cost.as_deref(), Some("0.10"));
    assert_eq!(accounting.turns.len(), 2);
}

#[test]
fn cancellation_can_be_asked_for_twice() {
    let mut agent = Agent::builder().build();
    let mut run = agent.start_prompt("hi".into()).expect("an idle agent starts a run");
    assert!(agent.start_prompt("again".into()).is_err());
    assert_eq!(run.abort(&mut agent), Ok(()));
    let (settled, snapshot) = (run.snapshot(), agent.snapshot());
    assert_eq!(settled.phase, RunPhase::Cancelled);
    assert!(agent.is_idle());
    assert_eq!(run.abort(&mut agent), Ok(()));
    assert_eq!(run.snapshot(), settled);
    assert_eq!(agent.snapshot(), snapshot);
}
