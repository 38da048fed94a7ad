//! Provider adapters: catalogs, payloads, responses, accounting and transport decisions.

use pi_agent_core::json::JsonValue;
use pi_agent_core::provider::local::{
    parse_local_response, LocalConfig, DEFAULT_BASE_URL, LAGUNA_XS_2_1_MODEL,
};
use pi_agent_core::provider::openrouter::{
    build_payload, exact_number_at_path, openrouter_response_retryable, openrouter_status_retryable,
    parse_generation_cost, parse_response, response_body_prefix, OpenRouterConfig,
    OpenRouterConfigError, OpenRouterCostSource, OpenRouterCostTurn, OpenRouterProvider,
    RetryPolicy,
};
use pi_agent_core::provider::registry::{
    ProviderConfiguration, ProviderConfigurationKind, ProviderFeatures, ProviderRegistry,
    RegistryError, MODEL_CATALOG_VERSION,
};
use pi_agent_core::provider::transport::{
    curl_config, http_status_code, response_bytes_meaningful, response_bytes_repetition_stall,
    retryable_transport_error,
};
use pi_agent_core::scheduler::{ModelRequest, ModelStreamEvent};
use pi_agent_core::state::{ModelDescriptor, ThinkingLevel, Usage};

fn tool_response() -> &'static [u8] {
    br#"{
            "choices": [{
                "finish_reason": "tool_calls",
                "message": {
                    "content": null,
                    "reasoning_content": "think",
                    "tool_calls": [{
                        "id": "call_1",
                        "type": "function",
                        "function": {"name": "write", "arguments": "{\"path\":\"a.py\"}"}
                    }]
                }
            }],
            "usage": {
                "prompt_tokens": 10,
                "completion_tokens": 20,
                "prompt_tokens_details": {"cached_tokens": 3}
            }
        }"#
}

#[test]
fn local_parses_o_mlx_tool_calls_and_usage() {
    let (events, usage) =
        parse_local_response(tool_response(), 200).expect("response should parse");
    assert!(matches!(events[0], ModelStreamEvent::ToolCall(_)));
    assert!(matches!(events.last(), Some(ModelStreamEvent::End(_))));
    assert_eq!(
        usage,
        Usage {
            input_tokens: Some(10),
            output_tokens: Some(20),
            cache_read_tokens: Some(3),
            ..Usage::default()
        }
    );
}

#[test]
fn mod_parses_o_mlx_tool_calls_and_usage() {
    let (events, usage) =
        parse_local_response(tool_response(), 200).expect("response should parse");
    assert!(matches!(events[0], ModelStreamEvent::ToolCall(_)));
    assert!(matches!(events.last(), Some(ModelStreamEvent::End(_))));
    assert_eq!(
        usage,
        Usage {
            input_tokens: Some(10),
            output_tokens: Some(20),
            cache_read_tokens: Some(3),
            ..Usage::default()
        }
    );
}

#[test]
fn request_timeout_is_explicit_and_not_thirty_seconds() {
    let config = OpenRouterConfig::new("key".into(), "model".into());
    assert_eq!(config.request_timeout(), 300);
    assert_eq!(config.stall_timeout(), 60_000);
    assert_eq!(config.with_request_timeout(42).request_timeout(), 42);
    assert_eq!(
        OpenRouterConfig::new("key".into(), "model".into()).with_stall_timeout(7_000).stall_timeout(),
        7_000
    );
    assert_eq!(
        OpenRouterConfig::new("key".into(), "model".into()).with_stall_timeout(0).validate(),
        Err(OpenRouterConfigError::ZeroStallTimeout)
    );
}

fn generation_cost_is_read_without_identifier() {
    let usage = Usage {
        input_tokens: Some(10),
        output_tokens: Some(3),
        reasoning_tokens: None,
        ..Usage::default()
    };
    let cost = parse_generation_cost(
        br#"{
                "data": {
                    "id": "gen_must_not_be_written_to_artifacts",
                    "total_cost": 0.0000123,
                    "upstream_inference_cost": 0.00001,
                    "model": "poolside/laguna-xs-2.1:free",
                    "provider_name": "Poolside",
                    "tokens_prompt": 12,
                    "tokens_completion": 4,
                    "tokens_cached": 2,
                    "tokens_reasoning": 1
                }
            }"#,
        &usage,
    )
    .expect("provider cost is parsed");
    assert_eq!(cost.source, OpenRouterCostSource::Generation);
    assert_eq!(
        cost.total_usd_exact.as_deref().map(|text| text.parse::<f64>().unwrap()),
        Some(0.0000123)
    );
    assert_eq!(cost.total_usd_exact.as_deref(), Some("0.0000123"));
    assert_eq!(cost.upstream_inference_usd_exact.as_deref(), Some("0.00001"));
    assert_eq!(cost.provider.as_deref(), Some("Poolside"));
    assert_eq!(cost.input_tokens, Some(12));
    assert!(!format!("{cost:?}").contains("gen_must_not_be_written_to_artifacts"));
}

#[test]
fn openrouter_parses_redacted_generation_cost_without_retaining_identifier() {
    generation_cost_is_read_without_identifier();
}

#[test]
fn mod_parses_redacted_generation_cost_without_retaining_identifier() {
    generation_cost_is_read_without_identifier();
}

fn chat_usage_cost_is_preferred() {
    let bytes = br#"{
                "id": "gen_example",
                "model": "poolside/laguna-xs-2.1:free",
                "choices": [{"message": {"content": "ok"}, "finish_reason": "stop"}],
                "usage": {"prompt_tokens": 2, "completion_tokens": 1, "cost": 0}
            }"#;
    assert_eq!(exact_number_at_path(bytes, &["usage", "cost"]).as_deref(), Some("0"));
    let parsed = parse_response(bytes).expect("chat response parses");
    let cost = parsed.inline_cost.expect("inline provider cost");
    assert_eq!(cost.source, OpenRouterCostSource::ChatUsage);
    assert_eq!(
        cost.total_usd_exact.as_deref().map(|text| text.parse::<f64>().unwrap()),
        Some(0.0)
    );
    assert_eq!(cost.total_usd_exact.as_deref(), Some("0"));
    assert_eq!(parsed.generation_id.as_deref(), Some("gen_example"));
}

#[test]
fn openrouter_chat_usage_cost_is_preferred_without_generation_metadata() {
    chat_usage_cost_is_preferred();
}

#[test]
fn mod_chat_usage_cost_is_preferred_without_generation_metadata() {
    chat_usage_cost_is_preferred();
}

fn luna_request() -> ModelRequest {
    ModelRequest {
        system_prompt: "system".into(),
        context: "[]".into(),
        model: Some(ModelDescriptor {
            provider: "openrouter".into(),
            model: "openai/gpt-5.6-luna".into(),
            revision: None,
        }),
        thinking_level: ThinkingLevel::XHigh,
        ..ModelRequest::default()
    }
}

#[test]
fn builds_explicit_output_cap_and_openrouter_reasoning_wire() {
    let config = OpenRouterConfig::try_new("key".into(), "openai/gpt-5.6-luna".into()).unwrap();
    let payload = build_payload(&config.with_max_tokens(128_000), &luna_request()).unwrap();
    let payload = JsonValue::parse(&payload).unwrap();
    assert_eq!(payload.get("max_tokens").and_then(JsonValue::as_u64), Some(128_000));
    assert_eq!(
        payload.get("reasoning").and_then(|value| value.get("effort")).and_then(JsonValue::as_str),
        Some("xhigh")
    );
    assert_eq!(payload.get("stream").and_then(JsonValue::as_bool), Some(false));
}

#[test]
fn rejects_missing_or_mismatched_model_before_transport() {
    let mut provider =
        OpenRouterProvider::new(OpenRouterConfig::try_new("key".into(), "model".into()).unwrap());
    let request = ModelRequest { context: "[]".into(), ..ModelRequest::default() };
    let error = provider.prepare(&request).unwrap_err();
    let stream = OpenRouterProvider::failed_stream(error, false);
    assert!(
        matches!(stream.events.first(), Some(ModelStreamEvent::Error { message }) if message.contains("omitted its exact model"))
    );

    let error = provider
        .prepare(&ModelRequest {
            context: "[]".into(),
            model: Some(ModelDescriptor {
                provider: "openrouter".into(),
                model: "other-model".into(),
                revision: None,
            }),
            ..ModelRequest::default()
        })
        .unwrap_err();
    let stream = OpenRouterProvider::failed_stream(error, false);
    assert!(
        matches!(stream.events.first(), Some(ModelStreamEvent::Error { message }) if message.contains("does not match requested model"))
    );
}

#[test]
fn retries_only_transient_openrouter_response_statuses() {
    assert!(openrouter_response_retryable(br#"{"error":{"code":429,"message":"slow down"}}"#));
    assert!(openrouter_response_retryable(
        br#"{"error":{"code":503,"message":"temporarily unavailable"}}"#
    ));
    assert!(!openrouter_response_retryable(
        br#"{"error":{"code":400,"message":"invalid request"}}"#
    ));
    assert!(!openrouter_response_retryable(br#"{"error":{"message":"invalid request"}}"#));
    assert!(openrouter_status_retryable(Some(502)));
    assert!(!openrouter_status_retryable(Some(400)));
}

#[test]
fn non_json_response_keeps_stream_error_stable_and_report_body_bounded() {
    let error = match parse_response(
        br#"<html><body>upstream gateway failure with a very long diagnostic</body></html>"#,
    ) {
        Ok(_) => panic!("non-JSON response unexpectedly parsed"),
        Err(error) => error,
    };
    assert_eq!(error, "OpenRouter returned a non-JSON response");
    assert_eq!(
        response_body_prefix(
            br#"<html><body>upstream gateway failure with a very long diagnostic</body></html>"#,
            Some("failure"),
        ),
        "<html><body>upstream gateway [redacted] with a very long diagnostic</body></html>"
    );
}

fn priced(total: &str, input: Option<u64>, output: Option<u64>) -> OpenRouterCostTurn {
    OpenRouterCostTurn {
        turn: 0,
        source: OpenRouterCostSource::ChatUsage,
        total_usd_exact: Some(total.into()),
        upstream_inference_usd_exact: None,
        model: Some("model".into()),
        provider: None,
        input_tokens: input,
        output_tokens: output,
        cache_read_tokens: None,
        cache_write_tokens: None,
        reasoning_tokens: None,
    }
}

#[test]
fn preserves_decimal_costs_and_usage_without_float_aggregation() {
    let mut provider =
        OpenRouterProvider::new(OpenRouterConfig::new("key".into(), "model".into()));
    provider.record(
        &Usage {
            input_tokens: Some(2),
            output_tokens: Some(3),
            reasoning_tokens: None,
            ..Usage::default()
        },
        priced("0.100000000000000001", Some(2), Some(3)),
    );
    provider.record(&Usage::default(), priced("0.2", None, None));
    let report = provider.cost_report();
    assert_eq!(report.reported_total_usd_exact.as_deref(), Some("0.300000000000000001"));
    assert_eq!(provider.usage_snapshot().input_tokens, Some(2));
    assert_eq!(provider.usage_snapshot().output_tokens, Some(3));
    assert_eq!(provider.usage_snapshot().reasoning_tokens, None);
}

#[test]
fn reads_the_last_http_status_from_captured_headers() {
    assert_eq!(
        http_status_code(b"HTTP/2 502 Bad Gateway\r\ncontent-type: text/html\r\n\r\n"),
        Some(502)
    );
}

#[test]
fn ignores_non_http_capture_lines() {
    assert_eq!(http_status_code(b"curl: (28) timed out\n"), None);
}

#[test]
fn detects_repeated_prose_without_rejecting_distinct_prose() {
    let unit = b"data: {\"choices\":[{\"delta\":{\"content\":\"A useful analysis paragraph. \\n";
    let repeated = unit.repeat(2_000);
    assert!(response_bytes_repetition_stall(&repeated));

    let distinct = (0..2_000)
        .map(|index| format!("data: distinct analysis paragraph {index}.\\n"))
        .collect::<String>();
    assert!(!response_bytes_repetition_stall(distinct.as_bytes()));
}

#[test]
fn ignores_openrouter_processing_heartbeats_as_progress() {
    assert!(!response_bytes_meaningful(b": OPENROUTER PROCESSING\n\n: OPENROUTER PROCESSING\n"));
    assert!(response_bytes_meaningful(
        b": OPENROUTER PROCESSING\n\ndata: {\"choices\":[]}\n"
    ));
}

#[test]
fn retries_only_transport_failures_before_response_bytes() {
    assert!(retryable_transport_error(
        "OpenRouter HTTP transport failed before a provider response"
    ));
    assert!(retryable_transport_error(
        "OpenRouter HTTP transport stalled after 0 response bytes without meaningful progress"
    ));
    assert!(!retryable_transport_error(
        "OpenRouter HTTP transport failed after 32768 response bytes: curl: (28) timeout"
    ));
    assert!(!retryable_transport_error(
        "OpenRouter HTTP transport stalled after 32768 response bytes without meaningful progress"
    ));
}

fn reported_price(cost: &str) -> Option<String> {
    let text = format!(
        r#"{{"choices":[{{"message":{{"content":"ok"}},"finish_reason":"stop"}}],
            "usage":{{"cost":1,"cost":{cost}}}}}"#
    );
    let parsed = parse_response(text.as_bytes()).expect("chat response parses");
    parsed.inline_cost.and_then(|cost| cost.total_usd_exact)
}

#[test]
fn prices_keep_the_digits_that_the_provider_wrote() {
    for text in ["0.1000000000000000055", "0.10", "12", "18446744073709551616", "1.5e-7", "0"] {
        assert_eq!(reported_price(text).as_deref(), Some(text));
    }
    assert_eq!(reported_price("-0.5"), None);
    assert_eq!(reported_price("\"0.5\""), None);
    assert_eq!(reported_price("null"), None);
    assert_eq!(reported_price("{}"), None);

    let bytes = br#"{"d\u0061ta": {"total_cost" : 0.2000000000000000111 ,"upstream_inference_cost":7e-9}}"#;
    let cost = parse_generation_cost(bytes, &Usage::default()).expect("a price is reported");
    assert_eq!(cost.total_usd_exact.as_deref(), Some("0.2000000000000000111"));
    assert_eq!(cost.upstream_inference_usd_exact.as_deref(), Some("7e-9"));
    let refund = br#"{"data":{"total_cost":-1}}"#;
    assert!(parse_generation_cost(refund, &Usage::default()).is_none());

    assert_eq!(exact_number_at_path(bytes, &["data"]), None);
    assert_eq!(exact_number_at_path(bytes, &["data", "cost"]), None);
    assert_eq!(exact_number_at_path(bytes, &["data", "total_cost", "x"]), None);
    assert_eq!(exact_number_at_path(bytes, &[]), None);
    assert_eq!(exact_number_at_path(b"[1]", &["0"]), None);
    assert_eq!(exact_number_at_path(b"{", &["a"]), None);
}

fn only(commandcode: bool, openrouter: bool, local: bool) -> ProviderRegistry {
    ProviderRegistry::compiled(ProviderFeatures { commandcode, openrouter, local })
}

#[test]
fn registry_is_static_and_has_no_ambient_configuration_path() {
    let first = ProviderRegistry::new();
    let second = ProviderRegistry::new();
    assert_eq!(first.providers(), second.providers());
    assert!(first
        .providers()
        .iter()
        .all(|entry| entry.model_catalog_version == MODEL_CATALOG_VERSION));
    let first = only(true, true, true);
    let second = only(true, true, true);
    assert_eq!(first.providers(), second.providers());
    let ids: Vec<&str> = first.providers().iter().map(|entry| entry.id).collect();
    assert_eq!(ids, ["command-code", "local", "openrouter"]);
    assert!(first
        .providers()
        .iter()
        .all(|entry| entry.model_catalog_version == MODEL_CATALOG_VERSION));
}

#[test]
fn default_build_remains_provider_free() {
    assert!(ProviderRegistry::new().providers().is_empty());
}

#[test]
fn command_code_feature_contributes_only_command_code() {
    let registry = only(true, false, false);
    let provider = registry.provider("command-code").expect("compiled provider");
    assert_eq!(provider.display_name, "Command Code");
    assert_eq!(provider.configuration, ProviderConfigurationKind::CommandCode);
    assert!(!provider.capabilities.provider_reported_cost);
    assert!(!provider.capabilities.concrete_compactor);
    assert!(provider.model("deepseek/deepseek-v4-flash").is_some());
    assert!(registry.provider("openrouter").is_none());
}

#[test]
fn openrouter_feature_exposes_reported_cost_and_known_ids() {
    let registry = only(false, true, false);
    let provider = registry.provider("openrouter").expect("compiled provider");
    assert_eq!(provider.display_name, "OpenRouter");
    assert_eq!(provider.configuration, ProviderConfigurationKind::OpenRouter);
    assert!(provider.capabilities.supports_provider_reported_cost());
    assert!(!provider.capabilities.supports_compaction());
    assert!(provider.model("poolside/laguna-xs-2.1:free").is_some());
    assert!(registry.provider("command-code").is_none());
}

#[test]
fn custom_model_path_is_explicit_and_does_not_change_catalog() {
    let registry = only(false, true, false);
    let before = registry.providers()[0].models.clone();
    let selection = registry
        .custom_model("openrouter", "caller/private-model".into())
        .expect("custom IDs are allowed");
    assert!(selection.custom);
    assert_eq!(selection.descriptor.provider, "openrouter");
    assert_eq!(selection.descriptor.model, "caller/private-model");
    assert_eq!(registry.providers()[0].models, before);
}

#[test]
fn explicit_openrouter_configuration_builds_without_transport() {
    let registry = only(false, true, false);
    let selection = registry
        .resolve_model("openrouter", "openai/gpt-5.6-luna".into())
        .expect("checked-in model");
    let configured = match registry.build(
        selection.into_descriptor(),
        ProviderConfiguration::OpenRouter(
            OpenRouterConfig::try_new("test-key".into(), "openai/gpt-5.6-luna".into())
                .expect("valid explicit config"),
        ),
    ) {
        Ok(configured) => configured,
        Err(error) => panic!("matching explicit config: {error:?}"),
    };
    assert_eq!(configured.descriptor.provider, "openrouter");
    assert_eq!(configured.descriptor.model, "openai/gpt-5.6-luna");
}

#[test]
fn local_feature_exposes_laguna_and_builds_without_transport() {
    let registry = only(false, false, true);
    let provider = registry.provider("local").expect("compiled provider");
    assert_eq!(provider.display_name, "Local OpenAI-compatible server");
    assert_eq!(provider.configuration, ProviderConfigurationKind::Local);
    assert!(!provider.capabilities.supports_provider_reported_cost());
    assert_eq!(provider.models[0].context_window, Some(32_768));

    let selection = registry
        .resolve_model("local", LAGUNA_XS_2_1_MODEL.into())
        .expect("Laguna should be in the local catalog");
    let configured = match registry.build(
        selection.into_descriptor(),
        ProviderConfiguration::Local(LocalConfig::laguna_xs_2_1(DEFAULT_BASE_URL.into())),
    ) {
        Ok(configured) => configured,
        Err(error) => panic!("matching local config: {error:?}"),
    };
    assert_eq!(configured.descriptor.provider, "local");
}

#[test]
fn registry_errors_name_what_was_asked() {
    let registry = only(false, true, false);
    assert!(matches!(
        registry.resolve_model("command-code", "m".into()),
        Err(RegistryError::UnknownProvider { provider }) if provider == "command-code"
    ));
    assert!(matches!(
        registry.custom_model("openrouter", String::new()),
        Err(RegistryError::EmptyModel { provider }) if provider == "openrouter"
    ));
    assert!(matches!(
        registry.build(
            ModelDescriptor {
                provider: "openrouter".into(),
                model: "openai/gpt-5.6-luna".into(),
                revision: None
            },
            ProviderConfiguration::Local(LocalConfig::laguna_xs_2_1(DEFAULT_BASE_URL.into())),
        ),
        Err(RegistryError::ConfigurationProviderMismatch { expected, actual })
            if expected == "openrouter" && actual == "local"
    ));
}

#[test]
fn transport_keeps_the_key_out_of_arguments_and_the_retry_policy_is_bounded() {
    let config = curl_config("key").expect("key without line breaks");
    assert!(config.contains("Authorization: Bearer key"));
    assert_eq!(curl_config("ke\ny"), None);
    let policy = RetryPolicy::default();
    assert!(policy.retries(0, true, false));
    assert!(policy.retries(policy.max_retries(), true, false));
    assert!(!policy.retries(policy.max_retries() + 1, true, false));
    assert!(!policy.retries(0, false, false));
    assert!(!policy.retries(0, true, true));
}
