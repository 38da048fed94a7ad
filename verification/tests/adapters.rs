//! Command Code, the local server, and HTTP exchanges.

use pi_agent_core::json::JsonValue;
use pi_agent_core::provider::commandcode::{
    parse_ndjson_response, CommandCodeConfig, CommandCodeConfigError, CommandCodeHostContext,
    CommandCodePermissionMode, CommandCodeProvider,
};
use pi_agent_core::provider::completion::{CompletionAction, CompletionPhase, OpenRouterCompletion};
use pi_agent_core::provider::http::{Exchange, Failure, Request, Response, TimeoutPhase};
use pi_agent_core::provider::local::{
    local_payload, parse_local_response, split_curl_status, LocalConfig, LocalConfigError,
    LocalProvider, LAGUNA_XS_2_1_MODEL,
};
use pi_agent_core::provider::openrouter::{
    OpenRouterConfig, OpenRouterCostSource, OpenRouterProvider, RetryPolicy,
};
use pi_agent_core::provider::registry::{
    ProviderConfiguration, ProviderFeatures, ProviderRegistry, RegistryError,
};
use pi_agent_core::provider::transport::{
    settle_transport, Observation, TransportEnd, TransportResponse, TransportWatch, WatchAction,
    CAPTURE_UNNAMED, NOT_SENT, NOT_STARTED, NO_REQUEST_PIPE,
};
use pi_agent_core::scheduler::{ModelRequest, ModelStreamEvent};
use pi_agent_core::state::{
    AssistantToolCall, ModelDescriptor, SerializedJson, StopReason, ThinkingLevel, ToolCallId,
    Usage,
};
use pi_agent_core::tool::{ToolDefinition, ToolExecutionMode};

fn host_context() -> CommandCodeHostContext {
    CommandCodeHostContext::new("/sandbox/project".into(), "2026-08-14".into(), "darwin".into())
        .expect("explicit host context")
}

fn config() -> CommandCodeConfig {
    CommandCodeConfig::new("test-key".into(), "deepseek/deepseek-v4-flash".into(), host_context())
        .expect("explicit provider config")
        .with_permission_mode(CommandCodePermissionMode::AutoAccept)
        .with_thread_id("b51a3243-2dd9-4c81-b659-a039645b7d4e".into())
        .expect("thread id")
        .with_temperature(Some("0.25".into()))
        .expect("temperature")
        .with_zero_data_retention(true)
}

fn at<'a>(value: &'a JsonValue, path: &[&str]) -> &'a JsonValue {
    let mut value = value;
    for step in path {
        value = match step.parse::<usize>() {
            Ok(index) => &value.as_array().expect("an array")[index],
            Err(_) => value.get(step).expect("a member"),
        };
    }
    value
}

#[test]
fn serializes_gateway_payload_from_explicit_host_context() {
    let request = ModelRequest {
        system_prompt: "Be concise".into(),
        context: r#"[
                {"role":"user","content":"inspect the tree"},
                {"role":"assistant","content":null,"tool_calls":[{
                    "id":"call-1","type":"function",
                    "function":{"name":"read","arguments":"{\"path\":\"README.md\"}"}
                }]},
                {"role":"tool","tool_call_id":"call-1","content":"contents"}
            ]"#
        .into(),
        tools: vec![ToolDefinition {
            name: "read".into(),
            description: "Read a file".into(),
            schema: JsonValue::parse(
                r#"{"type":"object","properties":{"path":{"type":"string"}}}"#,
            )
            .expect("tool schema"),
            execution_mode: ToolExecutionMode::Parallel,
        }],
        model: Some(ModelDescriptor {
            provider: "command-code".into(),
            model: "deepseek/deepseek-v4-flash".into(),
            revision: None,
        }),
        thinking_level: ThinkingLevel::High,
    };

    let provider = CommandCodeProvider::new(config());
    let payload = provider.build_payload(&request).expect("payload");
    let text = |path: &[&str]| at(&payload, path).as_str().expect("a string").to_owned();
    assert_eq!(text(&["config", "workingDir"]), "/sandbox/project");
    assert_eq!(text(&["config", "date"]), "2026-08-14");
    assert_eq!(text(&["config", "environment"]), "darwin");
    assert_eq!(text(&["permissionMode"]), "auto-accept");
    assert_eq!(text(&["threadId"]), "b51a3243-2dd9-4c81-b659-a039645b7d4e");
    assert_eq!(text(&["config", "gitStatus"]), "");
    assert_eq!(text(&["params", "reasoning_effort"]), "high");
    assert_eq!(text(&["params", "tools", "0", "input_schema", "type"]), "object");
    assert_eq!(text(&["params", "messages", "1", "content", "0", "type"]), "tool-call");
    assert_eq!(text(&["params", "messages", "2", "content", "0", "toolName"]), "read");
    assert_eq!(provider.prepare(&request).expect("text"), payload.to_json_string());
}

#[test]
fn translates_ndjson_text_tool_usage_and_finish() {
    let (events, usage) = parse_ndjson_response(
        br#"{"type":"text-delta","text":"hi"}
{"type":"reasoning-delta","text":"thinking"}
{"type":"tool-call","toolCallId":"call-1","toolName":"read","input":{"path":"README.md"}}
{"type":"finish","finishReason":"tool-calls","totalUsage":{"inputTokens":12,"outputTokens":4,"reasoningTokens":2}}
{"type":"provider-metadata","provider":"command-code"}"#,
    )
    .expect("NDJSON response parses");
    assert_eq!(events.len(), 3);
    assert_eq!(events[0], ModelStreamEvent::TextDelta("hi".into()));
    assert_eq!(
        events[1],
        ModelStreamEvent::ToolCall(AssistantToolCall {
            id: ToolCallId::new("call-1".into()).expect("call id"),
            name: "read".into(),
            arguments: SerializedJson::new(r#"{"path":"README.md"}"#.into()),
        })
    );
    assert_eq!(events[2], ModelStreamEvent::End(StopReason::ToolUse));
    assert_eq!(
        usage,
        Usage {
            input_tokens: Some(12),
            output_tokens: Some(4),
            reasoning_tokens: Some(2),
            ..Usage::default()
        }
    );
}

#[test]
fn remote_error_body_is_not_exposed_to_the_agent() {
    let (events, usage) = parse_ndjson_response(
        br#"{"type":"error","error":{"message":"key test-key leaked remotely"}}"#,
    )
    .expect("error is a terminal provider event");
    assert_eq!(usage, Usage::default());
    assert_eq!(
        events,
        vec![ModelStreamEvent::Error {
            message: "Command Code provider returned an error".into(),
        }]
    );
}

#[test]
fn rejects_content_after_finish_but_accepts_only_known_metadata() {
    let error = parse_ndjson_response(
        br#"{"type":"finish","finishReason":"stop"}
{"type":"text-delta","text":"late content"}"#,
    )
    .expect_err("content after finish is not valid Command Code stream grammar");
    assert_eq!(error, "Command Code response contained events after its terminal event");
}

#[test]
fn configuration_rejects_ambient_placeholders_and_redacts_the_key() {
    assert_eq!(
        CommandCodeHostContext::new("".into(), "2026-08-14".into(), "darwin".into()),
        Err(CommandCodeConfigError::EmptyField("working directory"))
    );
    let debug = config().redacted();
    assert!(debug.contains("[redacted]"));
    assert!(!debug.contains("test-key"));
}

#[test]
fn gateway_headers_match_the_upstream_command_code_contract() {
    let headers = CommandCodeProvider::new(config()).request_headers();
    assert!(headers.contains(&"Accept: application/x-ndjson".into()));
    assert!(headers.contains(&"Authorization: Bearer test-key".into()));
    assert!(headers.contains(&"X-CLI-Environment: production".into()));
    assert!(headers.contains(&"X-Command-Code-Version: 1.24.0".into()));
    assert!(headers.contains(&"X-Project-Slug: project".into()));
    assert!(headers.contains(&"X-Taste-Learning: true".into()));
    assert!(headers.contains(&"X-Co-Flag: false".into()));
    assert!(headers.contains(&"X-Session-Id: b51a3243-2dd9-4c81-b659-a039645b7d4e".into()));
    assert!(headers.contains(&"User-Agent: cli".into()));
    assert!(headers.contains(&"X-Cmd-Zdr: 1".into()));
}

#[test]
fn rejects_a_request_for_a_different_provider_or_model() {
    let request = ModelRequest {
        model: Some(ModelDescriptor {
            provider: "openrouter".into(),
            model: "different-model".into(),
            revision: None,
        }),
        ..ModelRequest::default()
    };
    let error = CommandCodeProvider::new(config())
        .validate_model(&request)
        .expect_err("provider mismatch is explicit");
    assert_eq!(error, "Command Code configuration does not match the requested model");
}

#[test]
fn omits_an_unset_thread_id_instead_of_sending_json_null() {
    let provider = CommandCodeProvider::new(
        CommandCodeConfig::new(
            "test-key".into(),
            "deepseek/deepseek-v4-flash".into(),
            host_context(),
        )
        .expect("provider config"),
    );
    let payload = provider
        .build_payload(&ModelRequest { context: "[]".into(), ..ModelRequest::default() })
        .expect("payload");
    assert!(payload.get("threadId").is_none());
}

#[test]
fn rejects_non_uuid_thread_ids_instead_of_sending_a_different_wire_shape() {
    let error = CommandCodeConfig::new(
        "test-key".into(),
        "deepseek/deepseek-v4-flash".into(),
        host_context(),
    )
    .expect("provider config")
    .with_thread_id("thread-7".into())
    .err()
    .expect("the current Command Code client omits non-UUID thread IDs");
    assert_eq!(error, CommandCodeConfigError::InvalidThreadId);
}

#[test]
fn caller_can_override_the_project_slug_and_disable_taste_learning() {
    let headers = CommandCodeProvider::new(
        config()
            .with_project_slug("virtual-project".into())
            .expect("project slug")
            .with_taste_learning_enabled(false),
    )
    .request_headers();
    assert!(headers.contains(&"X-Project-Slug: virtual-project".into()));
    assert!(headers.contains(&"X-Taste-Learning: false".into()));
}

#[test]
fn mismatched_explicit_configuration_is_rejected_before_transport() {
    let registry = ProviderRegistry::compiled(ProviderFeatures {
        commandcode: true,
        openrouter: false,
        local: false,
    });
    let selection = registry
        .resolve_model("command-code", "deepseek/deepseek-v4-flash".into())
        .expect("checked-in model");
    let host =
        CommandCodeHostContext::new("/sandbox/project".into(), "2026-08-14".into(), "linux".into())
            .expect("explicit host context");
    let error = registry
        .build(
            selection.into_descriptor(),
            ProviderConfiguration::CommandCode(
                CommandCodeConfig::new("test-key".into(), "other-model".into(), host)
                    .expect("valid explicit config"),
            ),
        )
        .err()
        .expect("model mismatch must fail before adapter use");
    assert!(matches!(error, RegistryError::ConfigurationModelMismatch { .. }));
}

#[test]
fn turns_of_command_code_add_up() {
    let mut provider = CommandCodeProvider::new(config());
    let body = br#"{"type":"finish","finishReason":"stop","totalUsage":{"inputTokens":12}}"#;
    provider.read_response(body);
    let stream = provider.read_response(body);
    assert!(matches!(
        stream.events.last(),
        Some(ModelStreamEvent::End(StopReason::EndTurn))
    ));
    assert_eq!(provider.usage_snapshot().input_tokens, Some(24));
}

fn laguna_is_the_default() {
    let config = LocalConfig::laguna_xs_2_1("http://127.0.0.1:8000/v1".into());
    assert_eq!(config.model(), LAGUNA_XS_2_1_MODEL);
    assert!(config.validate().is_ok());
    assert!(format!("{config:?}").contains("enable_thinking: true"));
}

#[test]
fn local_laguna_defaults_target_o_mlx_without_ambient_configuration() {
    laguna_is_the_default();
}

#[test]
fn mod_laguna_defaults_target_o_mlx_without_ambient_configuration() {
    laguna_is_the_default();
}

fn laguna_request() -> ModelRequest {
    ModelRequest {
        system_prompt: "system".into(),
        context: "[{\"role\":\"user\",\"content\":\"hello\"}]".into(),
        tools: vec![ToolDefinition {
            name: "write".into(),
            description: "write a file".into(),
            schema: JsonValue::parse(r#"{"type":"object"}"#).expect("schema"),
            execution_mode: ToolExecutionMode::Parallel,
        }],
        model: Some(ModelDescriptor {
            provider: "local".into(),
            model: LAGUNA_XS_2_1_MODEL.into(),
            revision: None,
        }),
        thinking_level: ThinkingLevel::High,
    }
}

fn payload_has_thinking_and_tools() {
    let config = LocalConfig::laguna_xs_2_1("http://127.0.0.1:8000/v1".into());
    let payload = local_payload(&config, &laguna_request()).expect("payload should serialize");
    assert!(payload.contains("chat_template_kwargs"));
    assert!(payload.contains("enable_thinking"));
    assert!(payload.contains("\"tools\""));
    assert!(payload.contains("\"write\""));
}

#[test]
fn local_payload_uses_o_mlx_thinking_and_openai_tool_shapes() {
    payload_has_thinking_and_tools();
}

#[test]
fn mod_payload_uses_o_mlx_thinking_and_openai_tool_shapes() {
    payload_has_thinking_and_tools();
}

#[test]
fn local_server_prepares_posts_and_reads_what_comes_back() {
    let provider = LocalProvider::new(LocalConfig::laguna_xs_2_1("http://127.0.0.1:8000/v1".into()));
    assert_eq!(provider.endpoint(), "http://127.0.0.1:8000/v1/chat/completions");
    let body = provider.prepare(&laguna_request()).expect("body");
    assert!(body.contains("\"model\":\"Laguna-XS-2.1-5bit\""));
    assert!(body.contains("\"enable_thinking\":true"));
    let response = br#"{"choices":[{"finish_reason":"stop","message":{"content":"READY","tool_calls":[]}}],"usage":{"prompt_tokens":4,"completion_tokens":1}}"#;
    let (events, usage) = parse_local_response(response, 200).expect("response should parse");
    assert!(matches!(events.first(), Some(ModelStreamEvent::TextDelta(text)) if text == "READY"));
    assert_eq!(usage.input_tokens, Some(4));
    assert_eq!(usage.output_tokens, Some(1));
    assert!(parse_local_response(b"<html>", 200).is_err());
    assert!(parse_local_response(response, 500).is_err());
    assert_eq!(split_curl_status(b"{}\n200"), Ok(("{}".into(), 200)));
    assert_eq!(
        LocalConfig::try_new("".into(), "m".into()).err(),
        Some(LocalConfigError::EmptyField("base URL"))
    );
}

#[test]
fn exchanges_keep_status_and_partial_body() {
    let mut exchange = Exchange::begun(429);
    exchange.receive(b"ba");
    exchange.receive(b"d");
    let response = exchange.settle(false).expect("HTTP status errors remain responses");
    assert_eq!(response.status_code, 429);
    assert_eq!(response.body, b"bad");

    let mut stalled = Exchange::begun(200);
    stalled.receive(b"abc");
    let failure = stalled.broken("timeout: receive body", Some(TimeoutPhase::RecvBody));
    assert!(failure.is_stall());
    assert_eq!(failure.status_code, Some(200));
    assert_eq!(failure.body, b"abc");

    let failure = Exchange::begun(200).settle(true).expect_err("cancelled");
    assert_eq!(failure.message, "HTTP request cancelled");
    assert_eq!(Failure::cancelled().message, "HTTP request cancelled");
    let request = Request::get("http://localhost/status".into(), 2_000).with_stall_timeout(50);
    assert_eq!(request.stall_timeout_ms, Some(50));
}

#[test]
fn transports_stop_only_for_a_reason() {
    let quiet = Observation { now: 500, exited: None, cancelled: false, read: 0, meaningful: false };
    let mut watch = TransportWatch::started(0, 1_000);
    assert_eq!(watch.observe(quiet), WatchAction::Sleep);
    assert_eq!(
        watch.observe(Observation { now: 1_000, ..quiet }),
        WatchAction::End(TransportEnd::Stalled { bytes: 0 })
    );
    assert_eq!(
        watch.observe(Observation { cancelled: true, ..quiet }),
        WatchAction::End(TransportEnd::Cancelled)
    );
    assert_eq!(
        watch.observe(Observation { exited: Some(true), cancelled: true, ..quiet }),
        WatchAction::End(TransportEnd::Exited { success: true })
    );
    let mut watch = TransportWatch::started(0, 5_000);
    let flood = Observation { now: 1_500, read: 131_072, meaningful: true, ..quiet };
    assert_eq!(watch.observe(flood), WatchAction::CheckRepetition);
    assert_eq!(watch.checked(true, 1_500), WatchAction::End(TransportEnd::Repetitive));
    assert_eq!(watch.checked(false, 1_500), WatchAction::Sleep);
}

#[test]
fn settled_transports_keep_meaningful_bodies() {
    let error = settle_transport(TransportEnd::Repetitive, b"x".to_vec(), b"", b"")
        .expect_err("repetitive response should be rejected");
    assert!(error.contains("repetitive"), "unexpected error: {error}");
    let partial = settle_transport(
        TransportEnd::Exited { success: false },
        b"data: {}".to_vec(),
        b"curl: (28) timed out",
        b"",
    )
    .expect("a meaningful partial body is preserved");
    assert!(partial.partial);
    assert_eq!(partial.body, b"data: {}");
    let error = settle_transport(
        TransportEnd::Exited { success: false },
        b"  ".to_vec(),
        b" curl: (28) timed out\n",
        b"",
    )
    .expect_err("white space is no response");
    assert_eq!(
        error,
        "OpenRouter HTTP transport failed before a provider response: curl: (28) timed out"
    );
    let error = settle_transport(TransportEnd::Stalled { bytes: 2 }, b"  ".to_vec(), b"", b"")
        .expect_err("a whitespace-only response stalls");
    assert_eq!(
        error,
        "OpenRouter HTTP transport stalled after 2 response bytes without meaningful progress"
    );
    let whole = settle_transport(
        TransportEnd::Exited { success: true },
        Vec::new(),
        b"",
        b"HTTP/2 200 OK\r\n\r\n",
    )
    .expect("a finite response without body is a response");
    assert_eq!(whole.status_code, Some(200));
    assert!(!whole.partial);
}

#[test]
fn requests_are_not_replayed_after_content() {
    let mut provider =
        OpenRouterProvider::new(OpenRouterConfig::new("key".into(), "vendor/model".into()));
    let failed = |provider: &mut OpenRouterProvider, message: &str, cancelled: bool| {
        let error = provider.transport_failed(message.to_owned(), 1, 64, cancelled);
        let report = provider.last_error_report().expect("a failure leaves a report");
        assert_eq!(report.retryable, error.retryable);
        assert_eq!(report.message, message);
        assert_eq!(report.attempt, 1);
        assert_eq!(report.request_bytes, Some(64));
        error.retryable
    };
    let dead = settle_transport(TransportEnd::Stalled { bytes: 0 }, Vec::new(), b"", b"")
        .expect_err("an absent response stalls");
    assert!(failed(&mut provider, &dead, false));
    assert!(!failed(&mut provider, &dead, true));
    let refused =
        settle_transport(TransportEnd::Exited { success: false }, Vec::new(), b"curl: (7)", b"")
            .expect_err("a refused connection fails");
    assert!(failed(&mut provider, &refused, false));
    let broken = settle_transport(
        TransportEnd::Exited { success: false },
        b"{\"choices\":".to_vec(),
        b"curl: (18) transfer closed",
        b"HTTP/1.1 200 OK\r\n\r\n",
    )
    .expect_err("a broken response fails");
    assert_eq!(
        broken,
        "OpenRouter HTTP transport failed after 11 response bytes: curl: (18) transfer closed"
    );
    assert!(!failed(&mut provider, &broken, false));
}

fn openrouter() -> OpenRouterProvider {
    OpenRouterProvider::new(OpenRouterConfig::new("key".into(), "vendor/model".into()))
}

fn openrouter_request() -> ModelRequest {
    ModelRequest {
        system_prompt: "Be brief.".into(),
        context: "[]".into(),
        tools: Vec::new(),
        model: Some(ModelDescriptor {
            provider: "openrouter".into(),
            model: "vendor/model".into(),
            revision: None,
        }),
        thinking_level: ThinkingLevel::Default,
    }
}

fn answer(body: &str, status_code: u16) -> Result<TransportResponse, String> {
    Ok(TransportResponse {
        body: body.as_bytes().to_vec(),
        status_code: Some(status_code),
        partial: false,
    })
}

#[test]
fn completions_retry_then_look_up_their_price() {
    let mut provider = openrouter();
    let policy = RetryPolicy { max_retries: 1, base_delay_ms: 10 };
    let (mut completion, action) =
        OpenRouterCompletion::begin(&mut provider, &openrouter_request(), policy, false);
    assert!(matches!(&action, CompletionAction::Post(payload) if payload.contains("vendor/model")));
    let action = completion.delivered(&mut provider, answer("{}", 503), false);
    assert!(matches!(action, CompletionAction::Rest(10)));
    assert!(provider.last_error_report().is_some_and(|report| report.retryable));
    let action = completion.rested(&mut provider, false);
    assert!(matches!(action, CompletionAction::Post(_)));
    let body = r#"{"id":"gen-1","choices":[{"message":{"content":"hi"},"finish_reason":"stop"}],
        "usage":{"prompt_tokens":2,"completion_tokens":3}}"#;
    let action = completion.delivered(&mut provider, answer(body, 200), false);
    assert!(matches!(&action, CompletionAction::Fetch(id) if id == "gen-1"));
    assert!(provider.last_error_report().is_none());
    let action = completion.fetched(&mut provider, None);
    assert!(matches!(action, CompletionAction::Rest(10)));
    let action = completion.rested(&mut provider, false);
    assert!(matches!(action, CompletionAction::Fetch(_)));
    let priced = br#"{"data":{"total_cost":0.25}}"#.to_vec();
    let CompletionAction::Done(stream) = completion.fetched(&mut provider, Some(priced)) else {
        panic!("a priced completion settles");
    };
    assert_eq!(completion.phase(), CompletionPhase::Settled);
    assert_eq!(stream.events[0], ModelStreamEvent::TextDelta("hi".into()));
    assert_eq!(stream.events.last(), Some(&ModelStreamEvent::End(StopReason::EndTurn)));
    let report = provider.cost_report();
    assert!(report.complete);
    assert_eq!(report.turns[0].source, OpenRouterCostSource::Generation);
    assert_eq!(report.reported_total_usd_exact.as_deref(), Some("0.25"));
}

#[test]
fn completions_settle_when_cancelled_or_exhausted() {
    let mut provider = openrouter();
    let policy = RetryPolicy { max_retries: 1, base_delay_ms: 10 };
    let cancelled = vec![ModelStreamEvent::End(StopReason::Cancelled)];
    let (_, action) =
        OpenRouterCompletion::begin(&mut provider, &openrouter_request(), policy, true);
    assert!(matches!(action, CompletionAction::Done(stream) if stream.events == cancelled));
    let (mut completion, _) =
        OpenRouterCompletion::begin(&mut provider, &openrouter_request(), policy, false);
    let action = completion.delivered(&mut provider, answer("{}", 503), false);
    assert!(matches!(action, CompletionAction::Rest(_)));
    let action = completion.rested(&mut provider, true);
    assert!(matches!(action, CompletionAction::Done(stream) if stream.events == cancelled));
    let (mut completion, _) =
        OpenRouterCompletion::begin(&mut provider, &openrouter_request(), policy, false);
    let broken = "OpenRouter HTTP transport failed after 9 response bytes".to_owned();
    let action = completion.delivered(&mut provider, Err(broken.clone()), false);
    assert!(matches!(
        action,
        CompletionAction::Done(stream)
            if stream.events == vec![ModelStreamEvent::Error { message: broken.clone() }]
    ));
    let (mut completion, _) =
        OpenRouterCompletion::begin(&mut provider, &openrouter_request(), policy, false);
    let action = completion.unsent("no key file".into(), false);
    assert!(matches!(
        action,
        CompletionAction::Done(stream)
            if stream.events == vec![ModelStreamEvent::Error { message: "no key file".into() }]
    ));
    assert_eq!(provider.cost_report().turns.len(), 0);
}

#[test]
fn requests_that_were_not_sent_are_repeated() {
    let policy = RetryPolicy { max_retries: 1, base_delay_ms: 10 };
    for message in [
        "could not create private transport capture: full".to_owned(),
        CAPTURE_UNNAMED.to_owned(),
        format!("{NOT_STARTED}: no such file"),
        NO_REQUEST_PIPE.to_owned(),
        NOT_SENT.to_owned(),
    ] {
        let mut provider = openrouter();
        let (mut completion, _) =
            OpenRouterCompletion::begin(&mut provider, &openrouter_request(), policy, false);
        let action = completion.delivered(&mut provider, Err(message.clone()), false);
        assert!(matches!(action, CompletionAction::Rest(10)));
        assert!(provider.last_error_report().expect("a report").retryable);
        assert!(matches!(
            completion.rested(&mut provider, false),
            CompletionAction::Post(_)
        ));
        let action = completion.delivered(&mut provider, Err(message.clone()), false);
        assert!(matches!(
            action,
            CompletionAction::Done(stream)
                if stream.events == vec![ModelStreamEvent::Error { message: message.clone() }]
        ));
        let (mut completion, _) =
            OpenRouterCompletion::begin(&mut provider, &openrouter_request(), policy, false);
        let action = completion.delivered(&mut provider, Err(message), true);
        assert!(matches!(action, CompletionAction::Done(_)));
    }
}

#[test]
fn local_deliveries_become_streams() {
    let provider = LocalProvider::new(LocalConfig::new("http://localhost/v1".into(), "m".into()));
    let failure = Failure::unanswered("refused", None);
    let stream = provider.read_delivery(Err(failure), false);
    assert_eq!(
        stream.events,
        vec![ModelStreamEvent::Error {
            message:
                "local transport failed before a provider response: HTTP request failed: refused"
                    .into()
        }]
    );
    let stream = provider.read_delivery(Err(Failure::cancelled()), true);
    assert_eq!(stream.events, vec![ModelStreamEvent::End(StopReason::Cancelled)]);
    let body = br#"{"choices":[{"message":{"content":"hi"},"finish_reason":"stop"}],
        "usage":{"prompt_tokens":2,"completion_tokens":3}}"#;
    let stream =
        provider.read_delivery(Ok(Response { status_code: 200, body: body.to_vec() }), false);
    assert_eq!(stream.events[0], ModelStreamEvent::TextDelta("hi".into()));
    assert_eq!(stream.events.last(), Some(&ModelStreamEvent::End(StopReason::EndTurn)));
}
