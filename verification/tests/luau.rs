//! Capability manifests and Luau policies.

use pi_agent_core::capability::{
    AgentOperation, CapabilityError, CapabilityGate, CapabilityGrant, CapabilityManifest,
    CapabilityModule, CapabilityOperation, CapabilityProvider, CapabilityProviderError,
    CapabilityRequest, CapabilityResponse, JsonOperation, McpOperation, WorldOperation,
};
use pi_agent_core::hooks::BeforeToolCall;
use pi_agent_core::json::JsonValue;
use pi_agent_core::luau::{after_check, parse_declaration, Declaration, LuaPolicy};
use pi_agent_core::policy::{
    accept_bundle, accept_source, bundle_source_bytes, compose, parse_decision, Composition,
    DeclaredTool, PolicyDecision, PolicyError, PolicyLimits,
};
use pi_agent_core::state::{SerializedJson, ToolCallId};
use pi_agent_core::tool::ToolCall;
use std::sync::atomic::{AtomicUsize, Ordering};

fn world_mcp(target: Option<&str>) -> CapabilityOperation {
    WorldOperation::mcp("runebench".into(), McpOperation::Call, target.map(str::to_owned))
        .expect("test MCP permission")
        .into()
}

#[test]
fn manifest_round_trips_to_deterministic_json() {
    let manifest = CapabilityManifest::new(vec![
        CapabilityGrant::new(
            CapabilityModule::World,
            vec![
                CapabilityOperation::World(WorldOperation::Exec),
                world_mcp(Some("execute_code")),
                CapabilityOperation::World(WorldOperation::FsRead),
            ],
        )
        .expect("valid world grant"),
        CapabilityGrant::new(
            CapabilityModule::Agent,
            vec![CapabilityOperation::Agent(AgentOperation::Stop)],
        )
        .expect("valid agent grant"),
    ])
    .expect("valid manifest");

    let encoded = manifest.to_json_string();
    assert_eq!(
        encoded,
        r#"{"abi_version":1,"agent":["stop"],"world":["fs.read","exec",{"mcp":{"operation":"call","server":"runebench","target":"execute_code"}}]}"#
    );
    assert_eq!(
        CapabilityManifest::parse_json(&encoded).expect("manifest decodes"),
        manifest
    );
}

#[test]
fn request_is_denied_without_an_exact_module_and_operation_grant() {
    let manifest = CapabilityManifest::new(vec![CapabilityGrant::new(
        CapabilityModule::World,
        vec![CapabilityOperation::World(WorldOperation::FsRead)],
    )
    .expect("valid grant")])
    .expect("valid manifest");

    let request = CapabilityRequest::new(
        CapabilityOperation::World(WorldOperation::FsWrite),
        JsonValue::Null,
    );
    assert!(matches!(
        manifest.check(&request),
        Err(CapabilityError::Denied { module: CapabilityModule::World, .. })
    ));
}

#[test]
fn mcp_permissions_are_server_and_target_scoped() {
    let manifest = CapabilityManifest::parse_json(
        r#"{"abi_version":1,"world":[{"mcp":{"server":"runebench","operation":"call","target":"execute_code"}}]}"#,
    )
    .expect("valid MCP manifest");

    let allowed = CapabilityRequest::new(world_mcp(Some("execute_code")), JsonValue::Null);
    let wrong_tool = CapabilityRequest::new(world_mcp(Some("read_state")), JsonValue::Null);
    let wrong_server = CapabilityRequest::new(
        WorldOperation::mcp("other".into(), McpOperation::Call, Some("execute_code".into()))
            .expect("test MCP permission")
            .into(),
        JsonValue::Null,
    );
    assert!(manifest.check(&allowed).is_ok());
    assert!(manifest.check(&wrong_tool).is_err());
    assert!(manifest.check(&wrong_server).is_err());
}

#[test]
fn malformed_grants_reject_unknown_modules_operations_and_fields() {
    for input in [
        r#"{"abi_version":1,"filesystem":["read"]}"#,
        r#"{"abi_version":1,"world":["network"]}"#,
        r#"{"abi_version":1,"world":[{"mcp":{"server":"runebench","operation":"call","unexpected":true}}]}"#,
        r#"{"abi_version":1,"world":[{"mcp":{"server":"","operation":"call"}}]}"#,
    ] {
        assert!(CapabilityManifest::parse_json(input).is_err(), "accepted {input}");
    }
    assert!(matches!(
        CapabilityManifest::parse_json(r#"{"abi_version":2}"#),
        Err(CapabilityError::UnsupportedAbiVersion { expected: 1, actual: 2 })
    ));
    assert!(matches!(CapabilityManifest::parse_json("{"), Err(CapabilityError::Json(_))));
}

#[test]
fn duplicate_grants_and_operations_are_rejected() {
    let duplicate_grant = CapabilityManifest::new(vec![
        CapabilityGrant::new(
            CapabilityModule::Agent,
            vec![CapabilityOperation::Agent(AgentOperation::Events)],
        )
        .expect("valid grant"),
        CapabilityGrant::new(
            CapabilityModule::Agent,
            vec![CapabilityOperation::Agent(AgentOperation::Stop)],
        )
        .expect("valid grant"),
    ]);
    assert!(matches!(
        duplicate_grant,
        Err(CapabilityError::DuplicateGrant { module: CapabilityModule::Agent })
    ));

    let duplicate_operation = CapabilityGrant::new(
        CapabilityModule::Agent,
        vec![
            CapabilityOperation::Agent(AgentOperation::Events),
            CapabilityOperation::Agent(AgentOperation::Events),
        ],
    );
    assert!(matches!(
        duplicate_operation,
        Err(CapabilityError::DuplicateOperation { module: CapabilityModule::Agent, .. })
    ));
    assert!(
        CapabilityManifest::parse_json(r#"{"abi_version":1,"agent":["events","events"]}"#).is_err()
    );
    assert!(matches!(
        CapabilityGrant::new(
            CapabilityModule::World,
            vec![CapabilityOperation::Agent(AgentOperation::Events)],
        ),
        Err(CapabilityError::OperationModuleMismatch { module: CapabilityModule::World, .. })
    ));
}

struct CountingProvider(AtomicUsize);

impl CapabilityProvider for CountingProvider {
    fn provide(
        &self,
        _request: &CapabilityRequest,
    ) -> Result<CapabilityResponse, CapabilityProviderError> {
        self.0.fetch_add(1, Ordering::Relaxed);
        Ok(CapabilityResponse::new(JsonValue::Bool(true)))
    }
}

#[test]
fn gate_checks_before_provider_and_returns_structured_result() {
    let gate = CapabilityGate::new(
        CapabilityManifest::new(vec![CapabilityGrant::new(
            CapabilityModule::Agent,
            vec![CapabilityOperation::Agent(AgentOperation::Stop)],
        )
        .expect("valid grant")])
        .expect("valid manifest"),
        CountingProvider(AtomicUsize::new(0)),
    );
    let request = CapabilityRequest::new(
        CapabilityOperation::Agent(AgentOperation::Stop),
        JsonValue::Null,
    );
    assert_eq!(
        gate.provide(&request).expect("authorized request").value,
        JsonValue::Bool(true)
    );
    assert_eq!(gate.provider().0.load(Ordering::Relaxed), 1);

    let denied = CapabilityRequest::new(
        CapabilityOperation::Agent(AgentOperation::Events),
        JsonValue::Null,
    );
    assert!(gate.provide(&denied).is_err());
    assert_eq!(gate.provider().0.load(Ordering::Relaxed), 1);
}

const GAME_POLICY: &str = r#"
        return {
            system_prompt_append = "Use game tools deliberately.",
            tools = {
                {
                    name = "execute_code",
                    description = "Execute a game script.",
                    capability = "rs-agent",
                    execution_mode = "sequential",
                    schema_json = '{"type":"object","required":["code"]}',
                },
            },
            before_tool_call = function(call)
                if call.name == "execute_code" then
                    return "allow"
                end
                return { action = "block", reason = "not granted by game policy" }
            end,
        }
    "#;

fn call(name: &str) -> ToolCall {
    ToolCall {
        id: ToolCallId::new(format!("call-{name}")).expect("test IDs are non-empty"),
        name: name.to_owned(),
        arguments: SerializedJson::new("{}".into()),
    }
}

#[test]
fn policy_declares_prompt_tools_and_pre_tool_boundary() {
    let policy = LuaPolicy::load(GAME_POLICY).expect("policy should load");

    assert_eq!(policy.system_prompt_append(), "Use game tools deliberately.");
    assert_eq!(policy.tools().len(), 1);
    assert_eq!(policy.tools()[0].name, "execute_code");
    assert_eq!(policy.tools()[0].capability, "rs-agent");
    assert_eq!(policy.before_tool_call(&call("execute_code")), Ok(BeforeToolCall::Allow));
    assert_eq!(
        policy.before_tool_call(&call("read_resource")),
        Ok(BeforeToolCall::Block { reason: "not granted by game policy".to_owned() })
    );
}

#[test]
fn luau_syntax_runs_in_the_jit_enabled_policy_vm() {
    let policy = LuaPolicy::load(
        r#"
                local permitted: boolean = true
                return {
                    system_prompt_append = if permitted then "Luau policy" else "unreachable",
                    before_tool_call = function(_) return "allow" end,
                }
            "#,
    )
    .expect("Luau type annotations and if-expressions should compile");

    assert_eq!(policy.system_prompt_append(), "Luau policy");
    assert_eq!(policy.before_tool_call(&call("execute_code")), Ok(BeforeToolCall::Allow));
}

#[test]
fn sandbox_has_no_ambient_os_or_module_loader() {
    for source in [
        "return { system_prompt_append = os.time() }",
        "return { system_prompt_append = require('filesystem') }",
    ] {
        assert!(LuaPolicy::load(source).is_err(), "source should be rejected: {source}");
    }
}

#[test]
fn interrupt_budget_terminates_an_unbounded_hook() {
    let policy = LuaPolicy::load_with_limits(
        r#"
                return {
                    system_prompt_append = "",
                    before_tool_call = function(_) while true do end end,
                }
            "#,
        PolicyLimits {
            max_source_bytes: 4 * 1024,
            max_memory_bytes: 1024 * 1024,
            max_interrupt_checks: 2,
        },
    )
    .expect("policy source should load without executing the hook");

    let error = policy
        .before_tool_call(&call("execute_code"))
        .expect_err("unbounded hook must be interrupted");
    assert!(matches!(error, PolicyError::Runtime { .. }));
}

#[test]
fn source_limit_is_checked_before_vm_evaluation() {
    let error = LuaPolicy::load_with_limits(
        GAME_POLICY,
        PolicyLimits { max_source_bytes: 8, ..PolicyLimits::default() },
    )
    .err()
    .expect("oversized source should not enter the VM");

    assert!(matches!(error, PolicyError::SourceTooLarge { .. }));
}

#[test]
fn duplicate_tool_names_are_rejected_before_host_binding() {
    let error = LuaPolicy::load(
        r#"
                return {
                    system_prompt_append = "",
                    tools = {
                        {
                            name = "inspect",
                            description = "First declaration.",
                            capability = "world",
                            execution_mode = "parallel",
                            schema_json = "{}",
                        },
                        {
                            name = "inspect",
                            description = "Second declaration.",
                            capability = "world",
                            execution_mode = "parallel",
                            schema_json = "{}",
                        },
                    },
                }
            "#,
    )
    .err()
    .expect("a policy must not shadow a tool binding");

    assert!(matches!(error, PolicyError::Contract { .. }));
}

#[test]
fn policy_retains_optional_tool_handler_source_without_granting_authority() {
    let policy = LuaPolicy::load(
        r#"
                return {
                    system_prompt_append = "",
                    tools = {
                        {
                            name = "world_echo",
                            description = "Echo through an explicit host capability.",
                            capability = "world",
                            execution_mode = "sequential",
                            schema_json = "{}",
                            handler_source = "return function(call) return call.arguments_json end",
                        },
                    },
                }
            "#,
    )
    .expect("a declaration may retain handler source");

    assert_eq!(
        policy.tools()[0].handler_source.as_deref(),
        Some("return function(call) return call.arguments_json end")
    );
    let error = match LuaPolicy::load(
        r#"
                return {
                    system_prompt_append = "",
                    tools = {{
                        name = "empty_handler",
                        description = "Invalid handler.",
                        capability = "world",
                        execution_mode = "sequential",
                        schema_json = "{}",
                        handler_source = "  ",
                    }},
                }
            "#,
    ) {
        Ok(_) => panic!("an explicitly empty handler has no executable contract"),
        Err(error) => error,
    };
    assert!(matches!(error, PolicyError::Contract { .. }));
}

#[test]
fn policy_denial_does_not_reach_the_host_hook() {
    let policy = LuaPolicy::load(GAME_POLICY).expect("policy should load");
    let calls = AtomicUsize::new(0);
    let decide = |name: &str| match compose(policy.before_tool_call(&call(name))) {
        Composition::AskHost => {
            calls.fetch_add(1, Ordering::Relaxed);
            Ok(BeforeToolCall::Allow)
        }
        Composition::Settled(decision) => decision,
    };

    assert!(matches!(decide("read_resource"), Ok(BeforeToolCall::Block { .. })));
    assert_eq!(calls.load(Ordering::Relaxed), 0);
    assert_eq!(decide("execute_code"), Ok(BeforeToolCall::Allow));
    assert_eq!(calls.load(Ordering::Relaxed), 1);
}

#[test]
fn policy_hooks_see_the_call_and_may_fail() {
    let policy = LuaPolicy::load(
        r#"
                return {
                    system_prompt_append = "",
                    before_tool_call = function(call)
                        if call.name == "odd" then return 7 end
                        if call.name == "bad" then error("no") end
                        return {
                            action = "terminate",
                            reason = call.id .. ":" .. call.name .. ":" .. call.arguments_json,
                        }
                    end,
                }
            "#,
    )
    .expect("policy should load");
    assert_eq!(
        policy.before_tool_call(&call("echo")),
        Ok(BeforeToolCall::Terminate { reason: "call-echo:echo:{}".into() })
    );
    assert!(matches!(
        policy.before_tool_call(&call("odd")),
        Err(PolicyError::Contract { .. })
    ));
    assert!(matches!(
        policy.before_tool_call(&call("bad")),
        Err(PolicyError::Runtime { .. })
    ));
    let silent = LuaPolicy::load("return { system_prompt_append = 'x' }").expect("no hook");
    assert_eq!(silent.before_tool_call(&call("echo")), Ok(BeforeToolCall::Allow));
    assert!(silent.tools().is_empty());
}

#[test]
fn grants_come_in_the_order_of_their_names() {
    let grant = |module: CapabilityModule, operation: CapabilityOperation| {
        CapabilityGrant::new(module, vec![operation]).expect("a valid grant")
    };
    let manifest = CapabilityManifest::new(vec![
        grant(CapabilityModule::World, WorldOperation::Exec.into()),
        grant(CapabilityModule::Json, CapabilityOperation::Json(JsonOperation::Parse)),
        grant(CapabilityModule::Agent, CapabilityOperation::Agent(AgentOperation::Stop)),
    ])
    .expect("valid manifest");
    let modules: Vec<CapabilityModule> =
        manifest.grants().iter().map(|grant| grant.module()).collect();
    assert_eq!(
        modules,
        [CapabilityModule::Agent, CapabilityModule::Json, CapabilityModule::World]
    );
}

#[test]
fn each_hook_run_spends_the_budget_afresh() {
    let limits = PolicyLimits { max_interrupt_checks: 400, ..PolicyLimits::default() };
    let source = r#"
        return {
            system_prompt_append = "",
            before_tool_call = function(_)
                local n = 0
                for i = 1, 100 do n = n + i end
                return "allow"
            end,
        }
    "#;
    let policy = LuaPolicy::load_with_limits(source, limits).expect("policy should load");
    for _ in 0..20 {
        assert_eq!(policy.before_tool_call(&call("echo")), Ok(BeforeToolCall::Allow));
    }
    let endless = LuaPolicy::load_with_limits("while true do end", limits);
    let Err(PolicyError::Runtime { message }) = endless else {
        panic!("an endless source is interrupted")
    };
    assert!(message.contains("Luau policy interrupt budget exhausted"), "{message}");
}

#[test]
fn policies_have_only_the_pure_libraries() {
    let source = r#"
        local names = {}
        for _, name in { "coroutine", "table", "string", "utf8", "math", "os", "io", "package",
            "debug", "bit32", "buffer", "vector", "integer" } do
            if getfenv()[name] ~= nil then table.insert(names, name) end
        end
        return { system_prompt_append = table.concat(names, " ") }
    "#;
    let policy = LuaPolicy::load(source).expect("policy should load");
    assert_eq!(policy.system_prompt_append(), "coroutine table string utf8 math");
}

#[test]
fn bytecode_is_refused_as_a_source() {
    for source in ["\u{3}", "\u{0}", "\u{6}\u{3}\u{1}abc", "\u{9}\u{1}x"] {
        assert!(matches!(LuaPolicy::load(source), Err(PolicyError::Runtime { .. })));
    }
    let Err(PolicyError::Runtime { message }) = LuaPolicy::load("\u{3}") else {
        panic!("bytecode does not run")
    };
    assert!(message.contains("attempt to load a binary chunk"), "{message}");
    assert!(LuaPolicy::load("\t return { system_prompt_append = '' }").is_ok());
}

#[test]
fn failures_of_the_engine_are_told() {
    let policy = LuaPolicy::load(
        r#"return {
            system_prompt_append = "",
            before_tool_call = function(call)
                if call.name == "raw" then return "\255" end
                error("told " .. call.name)
            end,
        }"#,
    )
    .expect("policy should load");
    let Err(PolicyError::Runtime { message }) = policy.before_tool_call(&call("echo")) else {
        panic!("the function fails")
    };
    assert!(message.contains("told echo"), "{message}");
    assert!(matches!(
        policy.before_tool_call(&call("raw")),
        Err(PolicyError::Runtime { .. })
    ));
    let Err(PolicyError::Runtime { message }) = LuaPolicy::load("error('told at load')") else {
        panic!("the source fails")
    };
    assert!(message.contains("told at load"), "{message}");
}

#[test]
fn the_prompt_is_read_before_the_hook() {
    let source = r#"
        local order = {}
        return setmetatable({}, {
            __index = function(_, key)
                table.insert(order, key)
                if key == "system_prompt_append" then return "p" end
                if key == "before_tool_call" then
                    return function(_)
                        return { action = "block", reason = table.concat(order, " ") }
                    end
                end
                return nil
            end,
        })
    "#;
    let policy = LuaPolicy::load(source).expect("policy should load");
    assert_eq!(
        policy.before_tool_call(&call("echo")),
        Ok(BeforeToolCall::Block {
            reason: "system_prompt_append before_tool_call tools".into()
        })
    );
}

#[test]
fn memory_and_contract_faults_are_told_apart() {
    let limits = PolicyLimits { max_memory_bytes: 200_000, ..PolicyLimits::default() };
    let greedy = "local t = {} for i = 1, 5000 do t[i] = string.rep('x', 1000) .. i end \
                  return { system_prompt_append = 'x' }";
    assert!(matches!(
        LuaPolicy::load_with_limits(greedy, limits),
        Err(PolicyError::Runtime { .. })
    ));
    assert!(matches!(
        LuaPolicy::load("return { system_prompt_append = {} }"),
        Err(PolicyError::Contract { .. })
    ));
    assert!(matches!(
        LuaPolicy::load("return { system_prompt_append = '', before_tool_call = 3 }"),
        Err(PolicyError::Contract { .. })
    ));
    assert!(matches!(LuaPolicy::load("return 3"), Err(PolicyError::Runtime { .. })));
    assert_eq!(
        accept_source(1, PolicyLimits { max_interrupt_checks: 0, ..PolicyLimits::default() }),
        Err(PolicyError::InvalidLimit { field: "max_interrupt_checks" })
    );
    assert_eq!(
        PolicyError::SourceTooLarge { actual: 9, limit: 8 }.text(),
        "policy source is 9 bytes, exceeding 8 bytes"
    );
    assert_eq!(bundle_source_bytes(&vec![3, 4]), 7);
    assert_eq!(bundle_source_bytes(&vec![usize::MAX, 1]), usize::MAX);
    let limits = PolicyLimits { max_source_bytes: 7, ..PolicyLimits::default() };
    assert_eq!(accept_bundle(&vec![3, 4], limits), Ok(()));
    assert_eq!(
        accept_bundle(&vec![3, 4, 1], limits),
        Err(PolicyError::SourceTooLarge { actual: 8, limit: 7 })
    );
    assert_eq!(after_check(2), Some(1));
    assert_eq!(after_check(0), None);
}

fn declared(name: &str, mode: &str) -> DeclaredTool {
    DeclaredTool {
        name: Ok(name.into()),
        description: Ok("d".into()),
        capability: Ok("c".into()),
        schema_json: Ok("{}".into()),
        handler_source: Ok(None),
        execution_mode: Ok(mode.into()),
    }
}

#[test]
fn declarations_are_read_field_by_field() {
    let declaration = |tools| Declaration {
        system_prompt_append: Ok("p".into()),
        before_tool_call: Ok(()),
        tools,
    };
    let (prompt, tools) =
        parse_declaration(declaration(Ok(Some(vec![Ok(declared("a", "parallel"))]))))
            .expect("a declaration");
    assert_eq!(prompt, "p");
    assert_eq!(tools[0].name, "a");
    assert_eq!(
        parse_declaration(declaration(Ok(Some(vec![Ok(declared("a", "never"))])))).err(),
        Some(PolicyError::Contract {
            message:
                "tool \"a\" has invalid execution_mode \"never\"; expected sequential or parallel"
                    .into(),
        })
    );
    assert_eq!(
        parse_declaration(declaration(Ok(Some(vec![Ok(declared(" ", "parallel"))])))).err(),
        Some(PolicyError::Contract { message: "tool field \"name\" must not be empty".into() })
    );
    assert_eq!(
        parse_decision(PolicyDecision::Table { action: Ok("skip".into()), reason: Ok("r".into()) }),
        Err(PolicyError::Contract {
            message: "before_tool_call action \"skip\" must be block or terminate".into(),
        })
    );
    assert_eq!(
        parse_decision(PolicyDecision::Table { action: Ok("block".into()), reason: Ok(" ".into()) }),
        Err(PolicyError::Contract {
            message: "before_tool_call denial reason must not be empty".into(),
        })
    );
}
