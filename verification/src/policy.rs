//! The contract of a sandboxed policy.
//!
//! A policy declares prompt additions, prompt-facing tool definitions, and a narrow pre-tool
//! decision. It cannot acquire ambient process, network, file, or MCP authority; a host binds
//! each declared capability explicitly. What the script engine hands over is taken here as
//! plain values.

use crate::error::HookError;
use crate::hooks::{BeforeModel, BeforeToolCall};
use crate::json::{serde_from_str, Json, JsonValue};
use crate::text::{blank, debug_quoted, digits, is_blank, joined, push_number, quoted, same};
use crate::tool::ToolExecutionMode;
use vstd::prelude::*;

verus! {

broadcast use crate::model::group_views;

/// Name of the policy source in diagnostics.
pub const POLICY_CHUNK_NAME: &'static str = "pi-agent-policy.luau";

/// Resource limits applied to one policy virtual machine.
///
/// `max_interrupt_checks` bounds initial policy evaluation and each hook invocation separately.
/// The engine checks for interrupts at loop and function-call boundaries, so the value is a
/// deterministic host budget rather than an exact instruction count.
#[derive(Clone, Copy, Debug, Eq, PartialEq, Structural)]
pub struct PolicyLimits {
    /// Largest accepted policy source in bytes.
    pub max_source_bytes: usize,
    /// Largest allocation total of the engine in bytes.
    pub max_memory_bytes: usize,
    /// Largest number of interrupt checks permitted per evaluation.
    pub max_interrupt_checks: usize,
}

impl Default for PolicyLimits {
    fn default() -> (r: Self)
        ensures
            r == PolicyLimits::conservative(),
    {
        PolicyLimits {
            max_source_bytes: 65536,
            max_memory_bytes: 1048576,
            max_interrupt_checks: 10_000,
        }
    }
}

/// A policy loading or evaluation failure.
#[derive(Clone, Debug, Eq, PartialEq)]
pub enum PolicyError {
    /// The source exceeds the configured boundary before entering the engine.
    SourceTooLarge { actual: usize, limit: usize },
    /// A configured resource limit is zero.
    InvalidLimit { field: &'static str },
    /// The policy failed to meet the declaration contract.
    Contract { message: String },
    /// The engine rejected or interrupted evaluation.
    Runtime { message: String },
}

/// Model of a [`PolicyError`].
#[verifier::ext_equal]
pub enum PolicyErrorModel {
    SourceTooLarge { actual: usize, limit: usize },
    InvalidLimit { field: Seq<char> },
    Contract { message: Seq<char> },
    Runtime { message: Seq<char> },
}

impl View for PolicyError {
    type V = PolicyErrorModel;

    open spec fn view(&self) -> PolicyErrorModel {
        match *self {
            PolicyError::SourceTooLarge { actual, limit } => PolicyErrorModel::SourceTooLarge {
                actual,
                limit,
            },
            PolicyError::InvalidLimit { field } => PolicyErrorModel::InvalidLimit { field: field@ },
            PolicyError::Contract { message } => PolicyErrorModel::Contract { message: message@ },
            PolicyError::Runtime { message } => PolicyErrorModel::Runtime { message: message@ },
        }
    }
}

impl PolicyErrorModel {
    /// Diagnostic text of a failure.
    pub open spec fn text(self) -> Seq<char> {
        match self {
            PolicyErrorModel::SourceTooLarge { actual, limit } => "policy source is "@ + digits(
                actual as nat,
            ) + " bytes, exceeding "@ + digits(limit as nat) + " bytes"@,
            PolicyErrorModel::InvalidLimit { field } => "policy limit "@ + field
                + " must be non-zero"@,
            PolicyErrorModel::Contract { message } => "invalid policy contract: "@ + message,
            PolicyErrorModel::Runtime { message } => "Luau policy failed: "@ + message,
        }
    }
}

impl PolicyError {
    /// Diagnostic text of this failure.
    pub fn text(&self) -> (r: String)
        ensures
            r@ == self@.text(),
    {
        match self {
            PolicyError::SourceTooLarge { actual, limit } => {
                let mut out = "policy source is ".to_owned();
                push_number(&mut out, *actual as u64);
                out.push_str(" bytes, exceeding ");
                push_number(&mut out, *limit as u64);
                out.push_str(" bytes");
                out
            },
            PolicyError::InvalidLimit { field } => {
                let mut out = joined("policy limit ", field);
                out.push_str(" must be non-zero");
                out
            },
            PolicyError::Contract { message } => joined(
                "invalid policy contract: ",
                message.as_str(),
            ),
            PolicyError::Runtime { message } => joined("Luau policy failed: ", message.as_str()),
        }
    }
}

impl PolicyLimits {
    /// The limits that a host gets without choosing any.
    pub open spec fn conservative() -> PolicyLimits {
        PolicyLimits {
            max_source_bytes: 65536,
            max_memory_bytes: 1048576,
            max_interrupt_checks: 10_000,
        }
    }

    /// The first limit that is zero.
    pub open spec fn fault(self) -> Option<Seq<char>> {
        if self.max_source_bytes == 0 {
            Some("max_source_bytes"@)
        } else if self.max_memory_bytes == 0 {
            Some("max_memory_bytes"@)
        } else if self.max_interrupt_checks == 0 {
            Some("max_interrupt_checks"@)
        } else {
            None
        }
    }

    /// Why a source of some bytes may not enter the engine.
    pub open spec fn refusal(self, source_bytes: int) -> Option<PolicyErrorModel> {
        match self.fault() {
            Some(field) => Some(PolicyErrorModel::InvalidLimit { field }),
            None => if source_bytes > self.max_source_bytes {
                Some(
                    PolicyErrorModel::SourceTooLarge {
                        actual: source_bytes as usize,
                        limit: self.max_source_bytes,
                    },
                )
            } else {
                None
            },
        }
    }
}

/// Validate limits.
pub fn validate_limits(limits: PolicyLimits) -> (r: Result<(), PolicyError>)
    ensures
        match limits.fault() {
            None => r is Ok,
            Some(field) => r matches Err(e) && e@ == (PolicyErrorModel::InvalidLimit { field }),
        },
{
    if limits.max_source_bytes == 0 {
        return Err(PolicyError::InvalidLimit { field: "max_source_bytes" });
    }
    if limits.max_memory_bytes == 0 {
        return Err(PolicyError::InvalidLimit { field: "max_memory_bytes" });
    }
    if limits.max_interrupt_checks == 0 {
        return Err(PolicyError::InvalidLimit { field: "max_interrupt_checks" });
    }
    Ok(())
}

/// Accept a source of some bytes, before it enters the engine.
pub fn accept_source(source_bytes: usize, limits: PolicyLimits) -> (r: Result<(), PolicyError>)
    ensures
        match limits.refusal(source_bytes as int) {
            None => r is Ok,
            Some(error) => r matches Err(e) && e@ == error,
        },
{
    if let Err(error) = validate_limits(limits) {
        return Err(error);
    }
    if source_bytes > limits.max_source_bytes {
        return Err(
            PolicyError::SourceTooLarge { actual: source_bytes, limit: limits.max_source_bytes },
        );
    }
    Ok(())
}

/// The sum of the sizes of modules.
pub open spec fn size_sum(sizes: Seq<usize>) -> int
    decreases sizes.len(),
{
    if sizes.len() == 0 {
        0
    } else {
        size_sum(sizes.drop_last()) + sizes.last()
    }
}

proof fn lemma_size_sum(sizes: Seq<usize>, k: int)
    requires
        0 <= k <= sizes.len(),
    ensures
        0 <= size_sum(sizes.take(k)) <= size_sum(sizes),
    decreases sizes.len() - k,
{
    if k == sizes.len() {
        assert(sizes.take(k) =~= sizes);
        lemma_size_sum_positive(sizes);
    } else {
        lemma_size_sum(sizes, k + 1);
        assert(sizes.take(k + 1).drop_last() =~= sizes.take(k));
        lemma_size_sum_positive(sizes.take(k));
    }
}

proof fn lemma_size_sum_positive(sizes: Seq<usize>)
    ensures
        0 <= size_sum(sizes),
    decreases sizes.len(),
{
    if sizes.len() > 0 {
        lemma_size_sum_positive(sizes.drop_last());
    }
}

/// The aggregate size of the modules of a bundle, at most the greatest size.
///
/// Dormant modules count too, so they cannot evade the source-size boundary.
pub fn bundle_source_bytes(sizes: &Vec<usize>) -> (r: usize)
    ensures
        r == if size_sum(sizes@) > usize::MAX {
            usize::MAX as int
        } else {
            size_sum(sizes@)
        },
{
    let mut total: usize = 0;
    let mut i: usize = 0;
    assert(sizes@.take(0) =~= Seq::<usize>::empty());
    while i < sizes.len()
        invariant
            i <= sizes@.len(),
            total == size_sum(sizes@.take(i as int)),
        decreases sizes.len() - i,
    {
        proof {
            assert(sizes@.take(i + 1).drop_last() =~= sizes@.take(i as int));
            lemma_size_sum(sizes@, i + 1);
        }
        match total.checked_add(sizes[i]) {
            Some(sum) => total = sum,
            None => return usize::MAX,
        }
        i = i + 1;
    }
    assert(sizes@.take(i as int) =~= sizes@);
    total
}

/// Accept a bundle whose modules have these sizes, before it enters the engine. The limit on a
/// source bounds its aggregate size.
pub fn accept_bundle(sizes: &Vec<usize>, limits: PolicyLimits) -> (r: Result<(), PolicyError>)
    ensures
        match limits.refusal(
            if size_sum(sizes@) > usize::MAX {
                usize::MAX as int
            } else {
                size_sum(sizes@)
            },
        ) {
            None => r is Ok,
            Some(error) => r matches Err(e) && e@ == error,
        },
{
    accept_source(bundle_source_bytes(sizes), limits)
}

/// What the engine handed over for one declared tool. An error is the engine's diagnostic for
/// a field of another type.
#[derive(Debug)]
pub struct DeclaredTool {
    /// Field `name`.
    pub name: Result<String, String>,
    /// Field `description`.
    pub description: Result<String, String>,
    /// Field `capability`.
    pub capability: Result<String, String>,
    /// Field `schema_json`.
    pub schema_json: Result<String, String>,
    /// Field `handler_source`, which may be absent.
    pub handler_source: Result<Option<String>, String>,
    /// Field `execution_mode`.
    pub execution_mode: Result<String, String>,
}

/// The model of a field.
pub open spec fn field_model(field: Result<String, String>) -> Result<Seq<char>, Seq<char>> {
    match field {
        Ok(text) => Ok(text@),
        Err(error) => Err(error@),
    }
}

/// Model of a [`DeclaredTool`].
#[verifier::ext_equal]
pub struct DeclaredModel {
    pub name: Result<Seq<char>, Seq<char>>,
    pub description: Result<Seq<char>, Seq<char>>,
    pub capability: Result<Seq<char>, Seq<char>>,
    pub schema_json: Result<Seq<char>, Seq<char>>,
    pub handler_source: Result<Option<Seq<char>>, Seq<char>>,
    pub execution_mode: Result<Seq<char>, Seq<char>>,
}

impl View for DeclaredTool {
    type V = DeclaredModel;

    open spec fn view(&self) -> DeclaredModel {
        DeclaredModel {
            name: field_model(self.name),
            description: field_model(self.description),
            capability: field_model(self.capability),
            schema_json: field_model(self.schema_json),
            handler_source: match self.handler_source {
                Ok(source) => Ok(crate::model::opt_view(source)),
                Err(error) => Err(error@),
            },
            execution_mode: field_model(self.execution_mode),
        }
    }
}

/// A prompt-facing tool declared by a policy but not granted any authority.
#[derive(Debug, PartialEq)]
pub struct PolicyTool {
    /// Stable tool name sent to the model.
    pub name: String,
    /// Prompt-facing explanation of the tool.
    pub description: String,
    /// JSON Schema for the tool arguments.
    pub schema: JsonValue,
    /// Host-owned capability name that must be explicitly bound by an embedder.
    pub capability: String,
    /// Whether calls to this tool may overlap.
    pub execution_mode: ToolExecutionMode,
    /// Optional self-contained source for this tool's coroutine handler.
    ///
    /// It remains inert until an embedding deliberately adapts it into an explicit capability;
    /// declaring a handler never grants a world effect by itself.
    pub handler_source: Option<String>,
}

/// Model of a [`PolicyTool`].
#[verifier::ext_equal]
pub struct PolicyToolModel {
    pub name: Seq<char>,
    pub description: Seq<char>,
    pub schema: Json,
    pub capability: Seq<char>,
    pub execution_mode: ToolExecutionMode,
    pub handler_source: Option<Seq<char>>,
}

impl View for PolicyTool {
    type V = PolicyToolModel;

    open spec fn view(&self) -> PolicyToolModel {
        PolicyToolModel {
            name: self.name@,
            description: self.description@,
            schema: self.schema@,
            capability: self.capability@,
            execution_mode: self.execution_mode,
            handler_source: crate::model::opt_view(self.handler_source),
        }
    }
}

/// A step of reading a declaration, or its error.
pub type Read<T> = Result<T, PolicyErrorModel>;

/// A breach of the declaration contract.
pub open spec fn breach(message: Seq<char>) -> PolicyErrorModel {
    PolicyErrorModel::Contract { message }
}

fn contract(message: String) -> (r: PolicyError)
    ensures
        r@ == breach(message@),
{
    PolicyError::Contract { message }
}

/// A field that has to be there.
pub open spec fn required(field: Result<Seq<char>, Seq<char>>, name: Seq<char>) -> Read<Seq<char>> {
    match field {
        Ok(text) => Ok(text),
        Err(error) => Err(
            breach(
                "tool field "@ + debug_quoted(name) + " is required and must be a string: "@
                    + error,
            ),
        ),
    }
}

fn required_field(field: Result<String, String>, name: &str) -> (r: Result<String, PolicyError>)
    ensures
        match r {
            Ok(text) => required(field_model(field), name@) == Ok::<Seq<char>, PolicyErrorModel>(
                text@,
            ),
            Err(error) => required(field_model(field), name@) == Err::<
                Seq<char>,
                PolicyErrorModel,
            >(error@),
        },
{
    match field {
        Ok(text) => Ok(text),
        Err(error) => {
            let mut message = joined("tool field ", quoted(name).as_str());
            message.push_str(" is required and must be a string: ");
            message.push_str(error.as_str());
            Err(contract(message))
        },
    }
}

/// The breach of a field without visible characters.
pub open spec fn empty_field(name: Seq<char>) -> PolicyErrorModel {
    breach("tool field "@ + debug_quoted(name) + " must not be empty"@)
}

fn empty(name: &str) -> (r: PolicyError)
    ensures
        r@ == empty_field(name@),
{
    let mut message = joined("tool field ", quoted(name).as_str());
    message.push_str(" must not be empty");
    contract(message)
}

/// The breach of a tool, named in the diagnostic.
pub open spec fn tool_breach(name: Seq<char>, message: Seq<char>) -> PolicyErrorModel {
    breach("tool "@ + debug_quoted(name) + message)
}

fn tool_error(name: &str, message: &str) -> (r: PolicyError)
    ensures
        r@ == tool_breach(name@, message@),
{
    let mut text = joined("tool ", quoted(name).as_str());
    text.push_str(message);
    contract(text)
}

/// The execution mode with a name.
pub open spec fn mode_of(text: Seq<char>) -> Option<ToolExecutionMode> {
    if text == "sequential"@ {
        Some(ToolExecutionMode::Sequential)
    } else if text == "parallel"@ {
        Some(ToolExecutionMode::Parallel)
    } else {
        None
    }
}

/// A tool whose texts were read: its schema and handler are checked.
pub open spec fn finished_tool(
    name: Seq<char>,
    description: Seq<char>,
    capability: Seq<char>,
    execution_mode: ToolExecutionMode,
    handler_source: Option<Seq<char>>,
    schema: Result<Json, Seq<char>>,
) -> Read<PolicyToolModel> {
    match schema {
        Err(error) => Err(tool_breach(name, " schema_json is invalid: "@ + error)),
        Ok(schema) => if handler_source matches Some(source) && is_blank(source) {
            Err(tool_breach(name, " handler_source must not be empty when declared"@))
        } else {
            Ok(
                PolicyToolModel {
                    name,
                    description,
                    schema,
                    capability,
                    execution_mode,
                    handler_source,
                },
            )
        },
    }
}

/// Check the schema and handler of a tool whose texts were read.
pub fn finish_tool(
    name: String,
    description: String,
    capability: String,
    execution_mode: ToolExecutionMode,
    handler_source: Option<String>,
    schema: Result<JsonValue, String>,
) -> (r: Result<PolicyTool, PolicyError>)
    ensures
        ({
            let read = match schema {
                Ok(value) => Ok::<Json, Seq<char>>(value@),
                Err(error) => Err::<Json, Seq<char>>(error@),
            };
            let expected = finished_tool(
                name@,
                description@,
                capability@,
                execution_mode,
                crate::model::opt_view(handler_source),
                read,
            );
            match r {
                Ok(tool) => expected == Ok::<PolicyToolModel, PolicyErrorModel>(tool@),
                Err(error) => expected == Err::<PolicyToolModel, PolicyErrorModel>(error@),
            }
        }),
{
    match schema {
        Err(error) => {
            let message = joined(" schema_json is invalid: ", error.as_str());
            Err(tool_error(name.as_str(), message.as_str()))
        },
        Ok(schema) => {
            if let Some(source) = &handler_source {
                if blank(source.as_str()) {
                    return Err(
                        tool_error(
                            name.as_str(),
                            " handler_source must not be empty when declared",
                        ),
                    );
                }
            }
            Ok(
                PolicyTool {
                    name,
                    description,
                    schema,
                    capability,
                    execution_mode,
                    handler_source,
                },
            )
        },
    }
}

/// The first text of a tool without visible characters.
pub open spec fn first_empty(
    name: Seq<char>,
    description: Seq<char>,
    capability: Seq<char>,
    schema_json: Seq<char>,
) -> Option<Seq<char>> {
    if is_blank(name) {
        Some("name"@)
    } else if is_blank(description) {
        Some("description"@)
    } else if is_blank(capability) {
        Some("capability"@)
    } else if is_blank(schema_json) {
        Some("schema_json"@)
    } else {
        None
    }
}

/// The tool that was declared, or the first breach of its declaration.
pub open spec fn read_tool(declared: DeclaredModel) -> Read<PolicyToolModel> {
    match required(declared.name, "name"@) {
        Err(error) => Err(error),
        Ok(name) => match required(declared.description, "description"@) {
            Err(error) => Err(error),
            Ok(description) => match required(declared.capability, "capability"@) {
                Err(error) => Err(error),
                Ok(capability) => match required(declared.schema_json, "schema_json"@) {
                    Err(error) => Err(error),
                    Ok(schema_json) => match declared.handler_source {
                        Err(error) => Err(breach(error)),
                        Ok(handler_source) => match first_empty(
                            name,
                            description,
                            capability,
                            schema_json,
                        ) {
                            Some(field) => Err(empty_field(field)),
                            None => match required(declared.execution_mode, "execution_mode"@) {
                                Err(error) => Err(error),
                                Ok(mode) => match mode_of(mode) {
                                    None => Err(
                                        tool_breach(
                                            name,
                                            " has invalid execution_mode "@ + debug_quoted(mode)
                                                + "; expected sequential or parallel"@,
                                        ),
                                    ),
                                    Some(execution_mode) => finished_tool(
                                        name,
                                        description,
                                        capability,
                                        execution_mode,
                                        handler_source,
                                        serde_from_str(schema_json),
                                    ),
                                },
                            },
                        },
                    },
                },
            },
        },
    }
}

/// Read one declared tool.
pub fn parse_tool(declared: DeclaredTool) -> (r: Result<PolicyTool, PolicyError>)
    ensures
        match r {
            Ok(tool) => read_tool(declared@) == Ok::<PolicyToolModel, PolicyErrorModel>(tool@),
            Err(error) => read_tool(declared@) == Err::<PolicyToolModel, PolicyErrorModel>(error@),
        },
{
    let name = match required_field(declared.name, "name") {
        Err(error) => return Err(error),
        Ok(text) => text,
    };
    let description = match required_field(declared.description, "description") {
        Err(error) => return Err(error),
        Ok(text) => text,
    };
    let capability = match required_field(declared.capability, "capability") {
        Err(error) => return Err(error),
        Ok(text) => text,
    };
    let schema_json = match required_field(declared.schema_json, "schema_json") {
        Err(error) => return Err(error),
        Ok(text) => text,
    };
    let handler_source = match declared.handler_source {
        Err(error) => return Err(contract(error)),
        Ok(source) => source,
    };
    if blank(name.as_str()) {
        return Err(empty("name"));
    }
    if blank(description.as_str()) {
        return Err(empty("description"));
    }
    if blank(capability.as_str()) {
        return Err(empty("capability"));
    }
    if blank(schema_json.as_str()) {
        return Err(empty("schema_json"));
    }
    let mode = match required_field(declared.execution_mode, "execution_mode") {
        Err(error) => return Err(error),
        Ok(text) => text,
    };
    let execution_mode = if same(mode.as_str(), "sequential") {
        ToolExecutionMode::Sequential
    } else if same(mode.as_str(), "parallel") {
        ToolExecutionMode::Parallel
    } else {
        let mut message = joined(
            " has invalid execution_mode ",
            quoted(mode.as_str()).as_str(),
        );
        message.push_str("; expected sequential or parallel");
        return Err(tool_error(name.as_str(), message.as_str()));
    };
    let schema = match JsonValue::parse(schema_json.as_str()) {
        Ok(value) => Ok(value),
        Err(error) => Err(error.message),
    };
    finish_tool(name, description, capability, execution_mode, handler_source, schema)
}

/// Whether a tool with a name was declared.
pub open spec fn declares(tools: Seq<PolicyToolModel>, name: Seq<char>) -> bool {
    exists|i: int| 0 <= i < tools.len() && (#[trigger] tools[i]).name == name
}

/// The models of declared tools. An error is the engine's diagnostic for an item of another
/// type.
pub open spec fn declared_models(items: Seq<Result<DeclaredTool, String>>) -> Seq<
    Result<DeclaredModel, Seq<char>>,
> {
    items.map_values(
        |item: Result<DeclaredTool, String>|
            match item {
                Ok(tool) => Ok::<DeclaredModel, Seq<char>>(tool@),
                Err(error) => Err::<DeclaredModel, Seq<char>>(error@),
            },
    )
}

/// The tools of a declaration, in order, or its first breach. No name may be declared twice.
pub open spec fn read_tools(items: Seq<Result<DeclaredModel, Seq<char>>>) -> Read<
    Seq<PolicyToolModel>,
>
    decreases items.len(),
{
    if items.len() == 0 {
        Ok(Seq::empty())
    } else {
        match read_tools(items.drop_last()) {
            Err(error) => Err(error),
            Ok(before) => match items.last() {
                Err(error) => Err(breach(error)),
                Ok(declared) => match read_tool(declared) {
                    Err(error) => Err(error),
                    Ok(tool) => if declares(before, tool.name) {
                        Err(breach("tools contains duplicate name "@ + debug_quoted(tool.name)))
                    } else {
                        Ok(before.push(tool))
                    },
                },
            },
        }
    }
}

proof fn lemma_tools_prefix(items: Seq<Result<DeclaredModel, Seq<char>>>, k: int)
    requires
        0 <= k <= items.len(),
        read_tools(items.take(k)) is Err,
    ensures
        read_tools(items) == read_tools(items.take(k)),
    decreases items.len() - k,
{
    if k == items.len() {
        assert(items.take(k) =~= items);
    } else {
        assert(items.take(k + 1).drop_last() =~= items.take(k));
        lemma_tools_prefix(items, k + 1);
    }
}

fn declared_before(tools: &Vec<PolicyTool>, name: &str) -> (r: bool)
    ensures
        r == declares(crate::model::views(tools@), name@),
{
    let ghost all = crate::model::views(tools@);
    let mut i: usize = 0;
    while i < tools.len()
        invariant
            i <= tools@.len(),
            all == crate::model::views(tools@),
            forall|k: int| 0 <= k < i ==> (#[trigger] all[k]).name != name@,
        decreases tools.len() - i,
    {
        assert(all[i as int] == tools@[i as int]@);
        if same(tools[i].name.as_str(), name) {
            return true;
        }
        i = i + 1;
    }
    false
}

/// Read the tools of a declaration.
pub fn parse_tools(items: Vec<Result<DeclaredTool, String>>) -> (r: Result<
    Vec<PolicyTool>,
    PolicyError,
>)
    ensures
        match r {
            Ok(tools) => read_tools(declared_models(items@)) == Ok::<_, PolicyErrorModel>(
                crate::model::views(tools@),
            ),
            Err(error) => read_tools(declared_models(items@)) == Err::<
                Seq<PolicyToolModel>,
                PolicyErrorModel,
            >(error@),
        },
{
    let ghost all = declared_models(items@);
    let mut rest = items;
    let mut tools: Vec<PolicyTool> = Vec::new();
    let ghost mut n: int = 0;
    assert(crate::model::views(tools@) =~= Seq::<PolicyToolModel>::empty());
    assert(all.take(0) =~= Seq::<Result<DeclaredModel, Seq<char>>>::empty());
    while rest.len() > 0
        invariant
            0 <= n <= all.len(),
            all == declared_models(items@),
            all.skip(n) == declared_models(rest@),
            read_tools(all.take(n)) == Ok::<_, PolicyErrorModel>(crate::model::views(tools@)),
        decreases rest.len(),
    {
        let ghost before = rest@;
        let item = rest.remove(0);
        proof {
            assert(all.skip(n).len() == declared_models(before).len());
            assert(n < all.len());
            assert(all.skip(n)[0] == all[n]);
            assert(declared_models(before)[0] == all[n]);
            assert(all.take(n + 1).drop_last() =~= all.take(n));
            assert(all.take(n + 1).last() == all[n]);
            assert(declared_models(rest@) =~= declared_models(before).skip(1));
            assert(all.skip(n).skip(1) =~= all.skip(n + 1));
        }
        match item {
            Err(error) => {
                proof {
                    lemma_tools_prefix(all, n + 1);
                }
                return Err(contract(error));
            },
            Ok(declared) => match parse_tool(declared) {
                Err(error) => {
                    proof {
                        lemma_tools_prefix(all, n + 1);
                    }
                    return Err(error);
                },
                Ok(tool) => {
                    if declared_before(&tools, tool.name.as_str()) {
                        proof {
                            lemma_tools_prefix(all, n + 1);
                        }
                        return Err(
                            contract(
                                joined(
                                    "tools contains duplicate name ",
                                    quoted(tool.name.as_str()).as_str(),
                                ),
                            ),
                        );
                    }
                    tools.push(tool);
                },
            },
        }
        proof {
            n = n + 1;
        }
    }
    proof {
        assert(all.skip(n).len() == 0);
        assert(all.take(n) =~= all);
    }
    Ok(tools)
}

/// Whatever a declaration breaks, it breaks the contract.
pub(crate) proof fn lemma_tool_faults(items: Seq<Result<DeclaredModel, Seq<char>>>)
    ensures
        read_tools(items) matches Err(error) ==> error is Contract,
    decreases items.len(),
{
    if items.len() > 0 {
        lemma_tool_faults(items.drop_last());
    }
}

/// No two tools of a policy share a name, so none can shadow the binding of another.
pub proof fn law_tool_names_are_distinct(items: Seq<Result<DeclaredModel, Seq<char>>>)
    ensures
        read_tools(items) matches Ok(tools) ==> forall|i: int, j: int|
            0 <= i < j < tools.len() ==> (#[trigger] tools[i]).name != (#[trigger] tools[j]).name,
    decreases items.len(),
{
    if items.len() > 0 {
        law_tool_names_are_distinct(items.drop_last());
    }
}

/// What the engine's pre-tool function returned.
#[derive(Debug)]
pub enum PolicyDecision {
    /// A string, or the diagnostic for one that is not text.
    Text(Result<String, String>),
    /// A table with its two fields, or the diagnostics for them.
    Table { action: Result<String, String>, reason: Result<String, String> },
    /// Any other value.
    Other,
}

/// The decision that a value stands for.
pub open spec fn decided(value: PolicyDecision) -> Read<BeforeModel> {
    match value {
        PolicyDecision::Text(Err(error)) => Err(PolicyErrorModel::Runtime { message: error@ }),
        PolicyDecision::Text(Ok(text)) if text@ == "allow"@ => Ok(BeforeModel::Allow),
        PolicyDecision::Table { action: Err(error), .. } => Err(breach(error@)),
        PolicyDecision::Table { action: Ok(_), reason: Err(error) } => Err(breach(error@)),
        PolicyDecision::Table { action: Ok(action), reason: Ok(reason) } => if is_blank(reason@) {
            Err(breach("before_tool_call denial reason must not be empty"@))
        } else if action@ == "block"@ {
            Ok(BeforeModel::Block { reason: reason@ })
        } else if action@ == "terminate"@ {
            Ok(BeforeModel::Terminate { reason: reason@ })
        } else {
            Err(
                breach(
                    "before_tool_call action "@ + debug_quoted(action@)
                        + " must be block or terminate"@,
                ),
            )
        },
        _ => Err(breach("before_tool_call must return \"allow\" or { action, reason }"@)),
    }
}

/// Read the decision of the pre-tool function.
pub fn parse_decision(value: PolicyDecision) -> (r: Result<BeforeToolCall, PolicyError>)
    ensures
        match r {
            Ok(decision) => decided(value) == Ok::<BeforeModel, PolicyErrorModel>(decision@),
            Err(error) => decided(value) == Err::<BeforeModel, PolicyErrorModel>(error@),
        },
{
    match value {
        PolicyDecision::Text(Err(message)) => Err(PolicyError::Runtime { message }),
        PolicyDecision::Text(Ok(text)) => {
            if same(text.as_str(), "allow") {
                return Ok(BeforeToolCall::Allow);
            }
            Err(
                contract(
                    "before_tool_call must return \"allow\" or { action, reason }".to_owned(),
                ),
            )
        },
        PolicyDecision::Table { action, reason } => {
            let action = match action {
                Err(error) => return Err(contract(error)),
                Ok(text) => text,
            };
            let reason = match reason {
                Err(error) => return Err(contract(error)),
                Ok(text) => text,
            };
            if blank(reason.as_str()) {
                return Err(
                    contract("before_tool_call denial reason must not be empty".to_owned()),
                );
            }
            if same(action.as_str(), "block") {
                return Ok(BeforeToolCall::Block { reason });
            }
            if same(action.as_str(), "terminate") {
                return Ok(BeforeToolCall::Terminate { reason });
            }
            let mut message = joined("before_tool_call action ", quoted(action.as_str()).as_str());
            message.push_str(" must be block or terminate");
            Err(contract(message))
        },
        PolicyDecision::Other => Err(
            contract("before_tool_call must return \"allow\" or { action, reason }".to_owned()),
        ),
    }
}

/// The outcome of asking a policy first.
#[derive(Debug)]
pub enum Composition {
    /// The policy allows the call: the host's own hook decides.
    AskHost,
    /// The policy has settled the call; the host's hook is not asked.
    Settled(Result<BeforeToolCall, HookError>),
}

/// Compose the decision of a policy with the host's own hook: only an allowed call reaches it.
pub fn compose(decision: Result<BeforeToolCall, PolicyError>) -> (r: Composition)
    ensures
        match decision {
            Ok(BeforeToolCall::Allow) => r is AskHost,
            Ok(denial) => r matches Composition::Settled(Ok(given)) && given@ == denial@,
            Err(error) => r matches Composition::Settled(Err(e)) && e.hook@ == "before_tool_call"@
                && e.message@ == error@.text(),
        },
{
    match decision {
        Ok(BeforeToolCall::Allow) => Composition::AskHost,
        Ok(denial) => Composition::Settled(Ok(denial)),
        Err(error) => Composition::Settled(
            Err(HookError { hook: "before_tool_call", message: error.text() }),
        ),
    }
}

} // verus!
