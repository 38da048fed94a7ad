//! Versioned, host-controlled capabilities exposed to extensions.
//!
//! This module describes authority; it does not acquire authority. A host parses a
//! [`CapabilityManifest`], installs only the providers it intends to expose, and uses
//! [`CapabilityGate`] at every call boundary.
//!
//! The canonical JSON shape is:
//!
//! ```json
//! {
//!   "abi_version": 1,
//!   "agent": ["events", "tools", "stop"],
//!   "world": [
//!     "fs.read",
//!     {"mcp": {"server": "runebench", "operation": "call", "target": "execute_code"}}
//!   ],
//!   "trace": ["emit"]
//! }
//! ```
//!
//! Missing module members mean no grant. There is no wildcard operation, and an MCP grant
//! without a server is rejected. A missing MCP target means any target on that explicitly named
//! server and operation; hosts should prefer exact targets where practical.

use crate::json::{
    listed, member, serde_from_str, serde_to_string, Json, JsonError, JsonObject, JsonValue,
    NumberModel, RESERVED_MEMBER,
};
use crate::model::{duplicate_all, duplicate_opt, Duplicate};
use crate::text::{
    before, blank, debug_quoted, digits, is_before, is_blank, joined, lemma_before_irreflexive,
    lemma_before_total, lemma_before_trans, push_number, quoted, same,
};
use vstd::prelude::*;

verus! {

broadcast use crate::model::group_views;

/// The supported capability ABI version.
pub const CAPABILITY_ABI_VERSION: u64 = 1;

/// A virtual module through which a host may expose a capability.
#[derive(Clone, Copy, Debug, Eq, Hash, Ord, PartialEq, PartialOrd, Structural)]
pub enum CapabilityModule {
    /// Agent lifecycle and model-facing registry observations.
    Agent,
    /// Explicit world effects such as MCP or a host-owned filesystem.
    World,
    /// Structured, non-semantic trace annotations.
    Trace,
    /// Explicit task lifecycle requests.
    Task,
    /// Pure JSON conversion helpers.
    Json,
    /// Host-provided time operations.
    Time,
}

impl CapabilityModule {
    /// The virtual module name of a module.
    pub open spec fn spec_name(self) -> Seq<char> {
        match self {
            CapabilityModule::Agent => "@agent"@,
            CapabilityModule::World => "@world"@,
            CapabilityModule::Trace => "@trace"@,
            CapabilityModule::Task => "@task"@,
            CapabilityModule::Json => "@json"@,
            CapabilityModule::Time => "@time"@,
        }
    }

    /// The manifest member of a module.
    pub open spec fn key(self) -> Seq<char> {
        match self {
            CapabilityModule::Agent => "agent"@,
            CapabilityModule::World => "world"@,
            CapabilityModule::Trace => "trace"@,
            CapabilityModule::Task => "task"@,
            CapabilityModule::Json => "json"@,
            CapabilityModule::Time => "time"@,
        }
    }

    /// The virtual module name, including its `@` prefix.
    pub fn as_str(self) -> (r: &'static str)
        ensures
            r@ == self.spec_name(),
    {
        match self {
            CapabilityModule::Agent => "@agent",
            CapabilityModule::World => "@world",
            CapabilityModule::Trace => "@trace",
            CapabilityModule::Task => "@task",
            CapabilityModule::Json => "@json",
            CapabilityModule::Time => "@time",
        }
    }

    fn json_key(self) -> (r: &'static str)
        ensures
            r@ == self.key(),
    {
        match self {
            CapabilityModule::Agent => "agent",
            CapabilityModule::World => "world",
            CapabilityModule::Trace => "trace",
            CapabilityModule::Task => "task",
            CapabilityModule::Json => "json",
            CapabilityModule::Time => "time",
        }
    }
}

/// Agent operations that can be granted to a policy.
#[derive(Clone, Copy, Debug, Eq, Hash, Ord, PartialEq, PartialOrd, Structural)]
pub enum AgentOperation {
    /// Observe the current agent event stream through the host adapter.
    Events,
    /// Observe model-facing tool registration metadata.
    Tools,
    /// Request that the current run stop at a kernel-owned boundary.
    Stop,
}

impl AgentOperation {
    /// The canonical manifest spelling of an operation.
    pub open spec fn spec_name(self) -> Seq<char> {
        match self {
            AgentOperation::Events => "events"@,
            AgentOperation::Tools => "tools"@,
            AgentOperation::Stop => "stop"@,
        }
    }

    /// The operation with a spelling.
    pub open spec fn spec_parse(value: Seq<char>) -> Option<AgentOperation> {
        if value == "events"@ {
            Some(AgentOperation::Events)
        } else if value == "tools"@ {
            Some(AgentOperation::Tools)
        } else if value == "stop"@ {
            Some(AgentOperation::Stop)
        } else {
            None
        }
    }

    /// The place of an operation in the order of the manifest.
    pub open spec fn rank(self) -> int {
        match self {
            AgentOperation::Events => 0,
            AgentOperation::Tools => 1,
            AgentOperation::Stop => 2,
        }
    }

    /// The canonical manifest spelling.
    pub fn as_str(self) -> (r: &'static str)
        ensures
            r@ == self.spec_name(),
    {
        match self {
            AgentOperation::Events => "events",
            AgentOperation::Tools => "tools",
            AgentOperation::Stop => "stop",
        }
    }

    fn parse(value: &str) -> (r: Option<Self>)
        ensures
            r == AgentOperation::spec_parse(value@),
    {
        if same(value, "events") {
            Some(AgentOperation::Events)
        } else if same(value, "tools") {
            Some(AgentOperation::Tools)
        } else if same(value, "stop") {
            Some(AgentOperation::Stop)
        } else {
            None
        }
    }
}

proof fn lemma_agentoperation_spelling(operation: AgentOperation)
    ensures
        AgentOperation::spec_parse(operation.spec_name()) == Some(operation),
        operation.spec_name().len() > 0,
{
    reveal_strlit("events");
    reveal_strlit("tools");
    reveal_strlit("stop");
    assert("events"@.len() != "tools"@.len());
    assert("events"@.len() != "stop"@.len());
    assert("tools"@.len() != "stop"@.len());
}

/// MCP methods that may be scoped to a named server and optional target.
#[derive(Clone, Copy, Debug, Eq, Hash, Ord, PartialEq, PartialOrd, Structural)]
pub enum McpOperation {
    /// Invoke an MCP tool. The optional target is the exact tool name.
    Call,
    /// List resources exposed by a server.
    ListResources,
    /// Read one resource. The optional target is the exact resource URI.
    ReadResource,
}

impl McpOperation {
    /// The canonical manifest spelling of an operation.
    pub open spec fn spec_name(self) -> Seq<char> {
        match self {
            McpOperation::Call => "call"@,
            McpOperation::ListResources => "list_resources"@,
            McpOperation::ReadResource => "read_resource"@,
        }
    }

    /// The operation with a spelling.
    pub open spec fn spec_parse(value: Seq<char>) -> Option<McpOperation> {
        if value == "call"@ {
            Some(McpOperation::Call)
        } else if value == "list_resources"@ {
            Some(McpOperation::ListResources)
        } else if value == "read_resource"@ {
            Some(McpOperation::ReadResource)
        } else {
            None
        }
    }

    /// The place of an operation in the order of the manifest.
    pub open spec fn rank(self) -> int {
        match self {
            McpOperation::Call => 0,
            McpOperation::ListResources => 1,
            McpOperation::ReadResource => 2,
        }
    }

    /// The canonical manifest spelling.
    pub fn as_str(self) -> (r: &'static str)
        ensures
            r@ == self.spec_name(),
    {
        match self {
            McpOperation::Call => "call",
            McpOperation::ListResources => "list_resources",
            McpOperation::ReadResource => "read_resource",
        }
    }

    fn parse(value: &str) -> (r: Option<Self>)
        ensures
            r == McpOperation::spec_parse(value@),
    {
        if same(value, "call") {
            Some(McpOperation::Call)
        } else if same(value, "list_resources") {
            Some(McpOperation::ListResources)
        } else if same(value, "read_resource") {
            Some(McpOperation::ReadResource)
        } else {
            None
        }
    }
}

proof fn lemma_mcpoperation_spelling(operation: McpOperation)
    ensures
        McpOperation::spec_parse(operation.spec_name()) == Some(operation),
        operation.spec_name().len() > 0,
{
    reveal_strlit("call");
    reveal_strlit("list_resources");
    reveal_strlit("read_resource");
    assert("call"@.len() != "list_resources"@.len());
    assert("call"@.len() != "read_resource"@.len());
    assert("list_resources"@.len() != "read_resource"@.len());
}

/// Trace operations that can be granted to a policy.
#[derive(Clone, Copy, Debug, Eq, Hash, Ord, PartialEq, PartialOrd, Structural)]
pub enum TraceOperation {
    /// Add a structured annotation to the host trace.
    Emit,
}

impl TraceOperation {
    /// The canonical manifest spelling of an operation.
    pub open spec fn spec_name(self) -> Seq<char> {
        match self {
            TraceOperation::Emit => "emit"@,
        }
    }

    /// The operation with a spelling.
    pub open spec fn spec_parse(value: Seq<char>) -> Option<TraceOperation> {
        if value == "emit"@ {
            Some(TraceOperation::Emit)
        } else {
            None
        }
    }

    /// The place of an operation in the order of the manifest.
    pub open spec fn rank(self) -> int {
        match self {
            TraceOperation::Emit => 0,
        }
    }

    /// The canonical manifest spelling.
    pub fn as_str(self) -> (r: &'static str)
        ensures
            r@ == self.spec_name(),
    {
        match self {
            TraceOperation::Emit => "emit",
        }
    }

    fn parse(value: &str) -> (r: Option<Self>)
        ensures
            r == TraceOperation::spec_parse(value@),
    {
        if same(value, "emit") {
            Some(TraceOperation::Emit)
        } else {
            None
        }
    }
}

proof fn lemma_traceoperation_spelling(operation: TraceOperation)
    ensures
        TraceOperation::spec_parse(operation.spec_name()) == Some(operation),
        operation.spec_name().len() > 0,
{
    reveal_strlit("emit");
}

/// Task operations that can be granted to a policy.
#[derive(Clone, Copy, Debug, Eq, Hash, Ord, PartialEq, PartialOrd, Structural)]
pub enum TaskOperation {
    /// Request a kernel-owned child task.
    Spawn,
    /// Await a host-owned task result.
    Join,
    /// Request cancellation of a host-owned task.
    Cancel,
    /// Observe task status.
    Status,
}

impl TaskOperation {
    /// The canonical manifest spelling of an operation.
    pub open spec fn spec_name(self) -> Seq<char> {
        match self {
            TaskOperation::Spawn => "spawn"@,
            TaskOperation::Join => "join"@,
            TaskOperation::Cancel => "cancel"@,
            TaskOperation::Status => "status"@,
        }
    }

    /// The operation with a spelling.
    pub open spec fn spec_parse(value: Seq<char>) -> Option<TaskOperation> {
        if value == "spawn"@ {
            Some(TaskOperation::Spawn)
        } else if value == "join"@ {
            Some(TaskOperation::Join)
        } else if value == "cancel"@ {
            Some(TaskOperation::Cancel)
        } else if value == "status"@ {
            Some(TaskOperation::Status)
        } else {
            None
        }
    }

    /// The place of an operation in the order of the manifest.
    pub open spec fn rank(self) -> int {
        match self {
            TaskOperation::Spawn => 0,
            TaskOperation::Join => 1,
            TaskOperation::Cancel => 2,
            TaskOperation::Status => 3,
        }
    }

    /// The canonical manifest spelling.
    pub fn as_str(self) -> (r: &'static str)
        ensures
            r@ == self.spec_name(),
    {
        match self {
            TaskOperation::Spawn => "spawn",
            TaskOperation::Join => "join",
            TaskOperation::Cancel => "cancel",
            TaskOperation::Status => "status",
        }
    }

    fn parse(value: &str) -> (r: Option<Self>)
        ensures
            r == TaskOperation::spec_parse(value@),
    {
        if same(value, "spawn") {
            Some(TaskOperation::Spawn)
        } else if same(value, "join") {
            Some(TaskOperation::Join)
        } else if same(value, "cancel") {
            Some(TaskOperation::Cancel)
        } else if same(value, "status") {
            Some(TaskOperation::Status)
        } else {
            None
        }
    }
}

proof fn lemma_taskoperation_spelling(operation: TaskOperation)
    ensures
        TaskOperation::spec_parse(operation.spec_name()) == Some(operation),
        operation.spec_name().len() > 0,
{
    reveal_strlit("spawn");
    reveal_strlit("join");
    reveal_strlit("cancel");
    reveal_strlit("status");
    assert("spawn"@.len() != "join"@.len());
    assert("spawn"@.len() != "cancel"@.len());
    assert("spawn"@.len() != "status"@.len());
    assert("join"@.len() != "cancel"@.len());
    assert("join"@.len() != "status"@.len());
    assert("cancel"@[0] != "status"@[0]);
}

/// Pure JSON operations exposed through the virtual `@json` module.
#[derive(Clone, Copy, Debug, Eq, Hash, Ord, PartialEq, PartialOrd, Structural)]
pub enum JsonOperation {
    /// Parse a JSON string into a Luau-safe value.
    Parse,
    /// Encode a Luau-safe value as JSON.
    Stringify,
}

impl JsonOperation {
    /// The canonical manifest spelling of an operation.
    pub open spec fn spec_name(self) -> Seq<char> {
        match self {
            JsonOperation::Parse => "parse"@,
            JsonOperation::Stringify => "stringify"@,
        }
    }

    /// The operation with a spelling.
    pub open spec fn spec_parse(value: Seq<char>) -> Option<JsonOperation> {
        if value == "parse"@ {
            Some(JsonOperation::Parse)
        } else if value == "stringify"@ {
            Some(JsonOperation::Stringify)
        } else {
            None
        }
    }

    /// The place of an operation in the order of the manifest.
    pub open spec fn rank(self) -> int {
        match self {
            JsonOperation::Parse => 0,
            JsonOperation::Stringify => 1,
        }
    }

    /// The canonical manifest spelling.
    pub fn as_str(self) -> (r: &'static str)
        ensures
            r@ == self.spec_name(),
    {
        match self {
            JsonOperation::Parse => "parse",
            JsonOperation::Stringify => "stringify",
        }
    }

    fn parse(value: &str) -> (r: Option<Self>)
        ensures
            r == JsonOperation::spec_parse(value@),
    {
        if same(value, "parse") {
            Some(JsonOperation::Parse)
        } else if same(value, "stringify") {
            Some(JsonOperation::Stringify)
        } else {
            None
        }
    }
}

proof fn lemma_jsonoperation_spelling(operation: JsonOperation)
    ensures
        JsonOperation::spec_parse(operation.spec_name()) == Some(operation),
        operation.spec_name().len() > 0,
{
    reveal_strlit("parse");
    reveal_strlit("stringify");
    assert("parse"@.len() != "stringify"@.len());
}

/// Time operations whose source is selected by the host.
#[derive(Clone, Copy, Debug, Eq, Hash, Ord, PartialEq, PartialOrd, Structural)]
pub enum TimeOperation {
    /// Read the host's explicitly selected current time source.
    Now,
    /// Await a host-owned delay or timer.
    Sleep,
}

impl TimeOperation {
    /// The canonical manifest spelling of an operation.
    pub open spec fn spec_name(self) -> Seq<char> {
        match self {
            TimeOperation::Now => "now"@,
            TimeOperation::Sleep => "sleep"@,
        }
    }

    /// The operation with a spelling.
    pub open spec fn spec_parse(value: Seq<char>) -> Option<TimeOperation> {
        if value == "now"@ {
            Some(TimeOperation::Now)
        } else if value == "sleep"@ {
            Some(TimeOperation::Sleep)
        } else {
            None
        }
    }

    /// The place of an operation in the order of the manifest.
    pub open spec fn rank(self) -> int {
        match self {
            TimeOperation::Now => 0,
            TimeOperation::Sleep => 1,
        }
    }

    /// The canonical manifest spelling.
    pub fn as_str(self) -> (r: &'static str)
        ensures
            r@ == self.spec_name(),
    {
        match self {
            TimeOperation::Now => "now",
            TimeOperation::Sleep => "sleep",
        }
    }

    fn parse(value: &str) -> (r: Option<Self>)
        ensures
            r == TimeOperation::spec_parse(value@),
    {
        if same(value, "now") {
            Some(TimeOperation::Now)
        } else if same(value, "sleep") {
            Some(TimeOperation::Sleep)
        } else {
            None
        }
    }
}

proof fn lemma_timeoperation_spelling(operation: TimeOperation)
    ensures
        TimeOperation::spec_parse(operation.spec_name()) == Some(operation),
        operation.spec_name().len() > 0,
{
    reveal_strlit("now");
    reveal_strlit("sleep");
    assert("now"@.len() != "sleep"@.len());
}

/// A server- and optionally target-scoped MCP permission.
#[derive(Clone, Debug, Eq, Hash, PartialEq)]
pub struct McpPermission {
    /// Host-local MCP server identity. This is not a process or URL.
    pub server: String,
    /// MCP method allowed on `server`.
    pub operation: McpOperation,
    /// Exact tool name or resource URI, when the method supports a target.
    pub target: Option<String>,
}

/// Model of an [`McpPermission`].
#[verifier::ext_equal]
pub struct McpModel {
    pub server: Seq<char>,
    pub operation: McpOperation,
    pub target: Option<Seq<char>>,
}

impl View for McpPermission {
    type V = McpModel;

    open spec fn view(&self) -> McpModel {
        McpModel {
            server: self.server@,
            operation: self.operation,
            target: crate::model::opt_view(self.target),
        }
    }
}

impl McpModel {
    /// Whether a permission covers a requested one: the same server and method, and the same
    /// target unless the permission names none.
    pub open spec fn allows(self, requested: McpModel) -> bool {
        self.server == requested.server && self.operation == requested.operation && (
        self.target is None || self.target == requested.target)
    }

    /// Whether the names of a permission are usable.
    pub open spec fn named(self) -> bool {
        !is_blank(self.server) && (self.target matches Some(target) ==> !is_blank(target))
    }
}

/// Whether two optional texts are the same.
fn same_target(a: &Option<String>, b: &Option<String>) -> (r: bool)
    ensures
        r == (crate::model::opt_view(*a) == crate::model::opt_view(*b)),
{
    match (a, b) {
        (None, None) => true,
        (Some(a), Some(b)) => same(a.as_str(), b.as_str()),
        _ => false,
    }
}

impl McpPermission {
    /// Construct a server-scoped permission, rejecting empty names.
    pub fn new(server: String, operation: McpOperation, target: Option<String>) -> (r: Result<
        Self,
        CapabilityError,
    >)
        ensures
            match permission_fault(server@, crate::model::opt_view(target)) {
                Some(error) => r matches Err(e) && e@ == error,
                None => r matches Ok(permission) && permission@ == (McpModel {
                    server: server@,
                    operation,
                    target: crate::model::opt_view(target),
                }),
            },
    {
        if blank(server.as_str()) {
            return Err(malformed("MCP server", "must not be empty"));
        }
        if let Some(text) = &target {
            if blank(text.as_str()) {
                return Err(malformed("MCP target", "must not be empty"));
            }
        }
        Ok(McpPermission { server, operation, target })
    }

    fn allows(&self, requested: &Self) -> (r: bool)
        ensures
            r == self@.allows(requested@),
    {
        same(self.server.as_str(), requested.server.as_str()) && self.operation
            == requested.operation && (self.target.is_none() || same_target(
            &self.target,
            &requested.target,
        ))
    }
}

/// Why the names of a permission are not usable.
pub open spec fn permission_fault(server: Seq<char>, target: Option<Seq<char>>) -> Option<
    CapabilityErrorModel,
> {
    if is_blank(server) {
        Some(malformed_model("MCP server"@, "must not be empty"@))
    } else {
        match target {
            Some(text) if is_blank(text) => Some(
                malformed_model("MCP target"@, "must not be empty"@),
            ),
            _ => None,
        }
    }
}

impl Duplicate for McpPermission {
    fn duplicate(&self) -> (r: Self) {
        McpPermission {
            server: self.server.clone(),
            operation: self.operation,
            target: duplicate_opt(&self.target),
        }
    }
}

/// World effects that can be granted to a policy.
#[derive(Clone, Debug, Eq, Hash, PartialEq)]
pub enum WorldOperation {
    /// Read through a host-owned filesystem abstraction.
    FsRead,
    /// Write through a host-owned filesystem abstraction.
    FsWrite,
    /// Execute through a host-owned command abstraction.
    Exec,
    /// Invoke one explicitly scoped MCP server method.
    Mcp(McpPermission),
}

impl WorldOperation {
    /// Construct a scoped MCP operation.
    pub fn mcp(server: String, operation: McpOperation, target: Option<String>) -> (r: Result<
        Self,
        CapabilityError,
    >)
        ensures
            match permission_fault(server@, crate::model::opt_view(target)) {
                Some(error) => r matches Err(e) && e@ == error,
                None => r matches Ok(WorldOperation::Mcp(permission)) && permission@ == (McpModel {
                    server: server@,
                    operation,
                    target: crate::model::opt_view(target),
                }),
            },
    {
        match McpPermission::new(server, operation, target) {
            Ok(permission) => Ok(WorldOperation::Mcp(permission)),
            Err(error) => Err(error),
        }
    }
}

/// A typed operation in a manifest or capability request.
#[derive(Clone, Debug, Eq, Hash, PartialEq)]
pub enum CapabilityOperation {
    /// An `@agent` operation.
    Agent(AgentOperation),
    /// An `@world` operation.
    World(WorldOperation),
    /// An `@trace` operation.
    Trace(TraceOperation),
    /// An `@task` operation.
    Task(TaskOperation),
    /// An `@json` operation.
    Json(JsonOperation),
    /// An `@time` operation.
    Time(TimeOperation),
}

/// Model of a [`CapabilityOperation`].
#[verifier::ext_equal]
pub enum OperationModel {
    Agent(AgentOperation),
    FsRead,
    FsWrite,
    Exec,
    Mcp(McpModel),
    Trace(TraceOperation),
    Task(TaskOperation),
    Json(JsonOperation),
    Time(TimeOperation),
}

impl View for CapabilityOperation {
    type V = OperationModel;

    open spec fn view(&self) -> OperationModel {
        match *self {
            CapabilityOperation::Agent(operation) => OperationModel::Agent(operation),
            CapabilityOperation::World(WorldOperation::FsRead) => OperationModel::FsRead,
            CapabilityOperation::World(WorldOperation::FsWrite) => OperationModel::FsWrite,
            CapabilityOperation::World(WorldOperation::Exec) => OperationModel::Exec,
            CapabilityOperation::World(WorldOperation::Mcp(permission)) => OperationModel::Mcp(
                permission@,
            ),
            CapabilityOperation::Trace(operation) => OperationModel::Trace(operation),
            CapabilityOperation::Task(operation) => OperationModel::Task(operation),
            CapabilityOperation::Json(operation) => OperationModel::Json(operation),
            CapabilityOperation::Time(operation) => OperationModel::Time(operation),
        }
    }
}

impl Duplicate for CapabilityOperation {
    fn duplicate(&self) -> (r: Self) {
        match self {
            CapabilityOperation::Agent(operation) => CapabilityOperation::Agent(*operation),
            CapabilityOperation::World(WorldOperation::FsRead) => {
                CapabilityOperation::World(WorldOperation::FsRead)
            },
            CapabilityOperation::World(WorldOperation::FsWrite) => {
                CapabilityOperation::World(WorldOperation::FsWrite)
            },
            CapabilityOperation::World(WorldOperation::Exec) => {
                CapabilityOperation::World(WorldOperation::Exec)
            },
            CapabilityOperation::World(WorldOperation::Mcp(permission)) => {
                CapabilityOperation::World(WorldOperation::Mcp(permission.duplicate()))
            },
            CapabilityOperation::Trace(operation) => CapabilityOperation::Trace(*operation),
            CapabilityOperation::Task(operation) => CapabilityOperation::Task(*operation),
            CapabilityOperation::Json(operation) => CapabilityOperation::Json(*operation),
            CapabilityOperation::Time(operation) => CapabilityOperation::Time(*operation),
        }
    }
}

impl OperationModel {
    /// The module to which an operation belongs.
    pub open spec fn module(self) -> CapabilityModule {
        match self {
            OperationModel::Agent(_) => CapabilityModule::Agent,
            OperationModel::FsRead | OperationModel::FsWrite | OperationModel::Exec
            | OperationModel::Mcp(_) => CapabilityModule::World,
            OperationModel::Trace(_) => CapabilityModule::Trace,
            OperationModel::Task(_) => CapabilityModule::Task,
            OperationModel::Json(_) => CapabilityModule::Json,
            OperationModel::Time(_) => CapabilityModule::Time,
        }
    }

    /// The name of an operation in diagnostics.
    pub open spec fn name(self) -> Seq<char> {
        match self {
            OperationModel::Agent(operation) => operation.spec_name(),
            OperationModel::FsRead => "fs.read"@,
            OperationModel::FsWrite => "fs.write"@,
            OperationModel::Exec => "exec"@,
            OperationModel::Mcp(permission) => "mcp."@ + permission.server + "."@
                + permission.operation.spec_name() + "."@ + match permission.target {
                Some(target) => target,
                None => ""@,
            },
            OperationModel::Trace(operation) => operation.spec_name(),
            OperationModel::Task(operation) => operation.spec_name(),
            OperationModel::Json(operation) => operation.spec_name(),
            OperationModel::Time(operation) => operation.spec_name(),
        }
    }

    /// The place of an operation among those of its module; MCP operations share one.
    pub open spec fn rank(self) -> int {
        match self {
            OperationModel::Agent(operation) => operation.rank(),
            OperationModel::FsRead => 0,
            OperationModel::FsWrite => 1,
            OperationModel::Exec => 2,
            OperationModel::Mcp(_) => 3,
            OperationModel::Trace(operation) => operation.rank(),
            OperationModel::Task(operation) => operation.rank(),
            OperationModel::Json(operation) => operation.rank(),
            OperationModel::Time(operation) => operation.rank(),
        }
    }

    /// Whether a granted operation covers a requested one.
    pub open spec fn covers(self, requested: OperationModel) -> bool {
        match (self, requested) {
            (OperationModel::Mcp(granted), OperationModel::Mcp(wanted)) => granted.allows(wanted),
            _ => self == requested,
        }
    }

    /// Whether the names of an operation are usable.
    pub open spec fn named(self) -> bool {
        self matches OperationModel::Mcp(permission) ==> permission.named()
    }
}

/// Whether a target comes before another: no target comes first.
pub open spec fn target_before(a: Option<Seq<char>>, b: Option<Seq<char>>) -> bool {
    match (a, b) {
        (None, Some(_)) => true,
        (Some(a), Some(b)) => before(a, b),
        _ => false,
    }
}

/// Whether a permission comes before another: by server, then method, then target.
pub open spec fn mcp_before(a: McpModel, b: McpModel) -> bool {
    before(a.server, b.server) || (a.server == b.server && (a.operation.rank()
        < b.operation.rank() || (a.operation == b.operation && target_before(
        a.target,
        b.target,
    ))))
}

/// Whether an operation comes before another of the same module.
pub open spec fn op_before(a: OperationModel, b: OperationModel) -> bool {
    a.rank() < b.rank() || (a matches OperationModel::Mcp(x) && b matches OperationModel::Mcp(y)
        && mcp_before(x, y))
}

proof fn lemma_op_order(a: OperationModel, b: OperationModel)
    requires
        a.module() == b.module(),
    ensures
        op_before(a, b) || a == b || op_before(b, a),
        op_before(a, b) ==> a != b && !op_before(b, a),
{
    if let OperationModel::Mcp(x) = a {
        if let OperationModel::Mcp(y) = b {
            lemma_before_total(x.server, y.server);
            lemma_before_irreflexive(x.server);
            if before(x.server, y.server) && before(y.server, x.server) {
                lemma_before_trans(x.server, y.server, x.server);
            }
            if let (Some(s), Some(t)) = (x.target, y.target) {
                lemma_before_total(s, t);
                lemma_before_irreflexive(s);
                if before(s, t) && before(t, s) {
                    lemma_before_trans(s, t, s);
                }
            }
            assert(x.server == y.server && x.operation == y.operation && x.target == y.target
                ==> x =~= y);
        }
    }
}

proof fn lemma_op_trans(a: OperationModel, b: OperationModel, c: OperationModel)
    requires
        a.module() == b.module(),
        b.module() == c.module(),
        op_before(a, b),
        op_before(b, c),
    ensures
        op_before(a, c),
{
    if let (OperationModel::Mcp(x), OperationModel::Mcp(y), OperationModel::Mcp(z)) = (a, b, c) {
        if before(x.server, y.server) && before(y.server, z.server) {
            lemma_before_trans(x.server, y.server, z.server);
        }
        if let (Some(s), Some(t), Some(u)) = (x.target, y.target, z.target) {
            if before(s, t) && before(t, u) {
                lemma_before_trans(s, t, u);
            }
        }
    }
}

impl CapabilityOperation {
    /// The module to which this operation belongs.
    pub fn module(&self) -> (r: CapabilityModule)
        ensures
            r == self@.module(),
    {
        match self {
            CapabilityOperation::Agent(_) => CapabilityModule::Agent,
            CapabilityOperation::World(_) => CapabilityModule::World,
            CapabilityOperation::Trace(_) => CapabilityModule::Trace,
            CapabilityOperation::Task(_) => CapabilityModule::Task,
            CapabilityOperation::Json(_) => CapabilityModule::Json,
            CapabilityOperation::Time(_) => CapabilityModule::Time,
        }
    }

    fn sort_key(&self) -> (r: String)
        ensures
            r@ == self@.name(),
    {
        match self {
            CapabilityOperation::Agent(operation) => operation.as_str().to_owned(),
            CapabilityOperation::World(WorldOperation::FsRead) => "fs.read".to_owned(),
            CapabilityOperation::World(WorldOperation::FsWrite) => "fs.write".to_owned(),
            CapabilityOperation::World(WorldOperation::Exec) => "exec".to_owned(),
            CapabilityOperation::World(WorldOperation::Mcp(permission)) => {
                let mut out = joined("mcp.", permission.server.as_str());
                out.push_str(".");
                out.push_str(permission.operation.as_str());
                out.push_str(".");
                match &permission.target {
                    Some(target) => out.push_str(target.as_str()),
                    None => out.push_str(""),
                }
                out
            },
            CapabilityOperation::Trace(operation) => operation.as_str().to_owned(),
            CapabilityOperation::Task(operation) => operation.as_str().to_owned(),
            CapabilityOperation::Json(operation) => operation.as_str().to_owned(),
            CapabilityOperation::Time(operation) => operation.as_str().to_owned(),
        }
    }

    fn place(&self) -> (r: u8)
        ensures
            r == self@.rank(),
    {
        match self {
            CapabilityOperation::Agent(AgentOperation::Events) => 0,
            CapabilityOperation::Agent(AgentOperation::Tools) => 1,
            CapabilityOperation::Agent(AgentOperation::Stop) => 2,
            CapabilityOperation::World(WorldOperation::FsRead) => 0,
            CapabilityOperation::World(WorldOperation::FsWrite) => 1,
            CapabilityOperation::World(WorldOperation::Exec) => 2,
            CapabilityOperation::World(WorldOperation::Mcp(_)) => 3,
            CapabilityOperation::Trace(TraceOperation::Emit) => 0,
            CapabilityOperation::Task(TaskOperation::Spawn) => 0,
            CapabilityOperation::Task(TaskOperation::Join) => 1,
            CapabilityOperation::Task(TaskOperation::Cancel) => 2,
            CapabilityOperation::Task(TaskOperation::Status) => 3,
            CapabilityOperation::Json(JsonOperation::Parse) => 0,
            CapabilityOperation::Json(JsonOperation::Stringify) => 1,
            CapabilityOperation::Time(TimeOperation::Now) => 0,
            CapabilityOperation::Time(TimeOperation::Sleep) => 1,
        }
    }

    /// Whether this operation comes before another of the same module.
    fn comes_before(&self, other: &Self) -> (r: bool)
        ensures
            r == op_before(self@, other@),
    {
        let a = self.place();
        let b = other.place();
        if a != b {
            proof {
                assert(!(self@ is Mcp && other@ is Mcp));
            }
            return a < b;
        }
        match (self, other) {
            (
                CapabilityOperation::World(WorldOperation::Mcp(x)),
                CapabilityOperation::World(WorldOperation::Mcp(y)),
            ) => mcp_comes_before(x, y),
            _ => false,
        }
    }

    /// Whether two operations are the same.
    fn equals(&self, other: &Self) -> (r: bool)
        requires
            self@.module() == other@.module(),
        ensures
            r == (self@ == other@),
    {
        proof {
            lemma_op_order(self@, other@);
            lemma_op_order(other@, self@);
        }
        !self.comes_before(other) && !other.comes_before(self)
    }

    fn covers(&self, requested: &Self) -> (r: bool)
        requires
            self@.module() == requested@.module(),
        ensures
            r == self@.covers(requested@),
    {
        match (self, requested) {
            (
                CapabilityOperation::World(WorldOperation::Mcp(granted)),
                CapabilityOperation::World(WorldOperation::Mcp(wanted)),
            ) => granted.allows(wanted),
            _ => self.equals(requested),
        }
    }
}

fn method_place(operation: McpOperation) -> (r: u8)
    ensures
        r == operation.rank(),
{
    match operation {
        McpOperation::Call => 0,
        McpOperation::ListResources => 1,
        McpOperation::ReadResource => 2,
    }
}

fn mcp_comes_before(a: &McpPermission, b: &McpPermission) -> (r: bool)
    ensures
        r == mcp_before(a@, b@),
{
    if is_before(a.server.as_str(), b.server.as_str()) {
        return true;
    }
    if !same(a.server.as_str(), b.server.as_str()) {
        return false;
    }
    let x = method_place(a.operation);
    let y = method_place(b.operation);
    if x != y {
        return x < y;
    }
    match (&a.target, &b.target) {
        (None, Some(_)) => true,
        (Some(s), Some(t)) => is_before(s.as_str(), t.as_str()),
        _ => false,
    }
}

impl From<AgentOperation> for CapabilityOperation {
    fn from(operation: AgentOperation) -> (r: Self) {
        CapabilityOperation::Agent(operation)
    }
}

impl vstd::std_specs::convert::FromSpecImpl<AgentOperation> for CapabilityOperation {
    open spec fn obeys_from_spec() -> bool {
        true
    }

    open spec fn from_spec(operation: AgentOperation) -> Self {
        CapabilityOperation::Agent(operation)
    }
}

impl From<TraceOperation> for CapabilityOperation {
    fn from(operation: TraceOperation) -> (r: Self) {
        CapabilityOperation::Trace(operation)
    }
}

impl vstd::std_specs::convert::FromSpecImpl<TraceOperation> for CapabilityOperation {
    open spec fn obeys_from_spec() -> bool {
        true
    }

    open spec fn from_spec(operation: TraceOperation) -> Self {
        CapabilityOperation::Trace(operation)
    }
}

impl From<TaskOperation> for CapabilityOperation {
    fn from(operation: TaskOperation) -> (r: Self) {
        CapabilityOperation::Task(operation)
    }
}

impl vstd::std_specs::convert::FromSpecImpl<TaskOperation> for CapabilityOperation {
    open spec fn obeys_from_spec() -> bool {
        true
    }

    open spec fn from_spec(operation: TaskOperation) -> Self {
        CapabilityOperation::Task(operation)
    }
}

impl From<JsonOperation> for CapabilityOperation {
    fn from(operation: JsonOperation) -> (r: Self) {
        CapabilityOperation::Json(operation)
    }
}

impl vstd::std_specs::convert::FromSpecImpl<JsonOperation> for CapabilityOperation {
    open spec fn obeys_from_spec() -> bool {
        true
    }

    open spec fn from_spec(operation: JsonOperation) -> Self {
        CapabilityOperation::Json(operation)
    }
}

impl From<TimeOperation> for CapabilityOperation {
    fn from(operation: TimeOperation) -> (r: Self) {
        CapabilityOperation::Time(operation)
    }
}

impl vstd::std_specs::convert::FromSpecImpl<TimeOperation> for CapabilityOperation {
    open spec fn obeys_from_spec() -> bool {
        true
    }

    open spec fn from_spec(operation: TimeOperation) -> Self {
        CapabilityOperation::Time(operation)
    }
}

impl From<WorldOperation> for CapabilityOperation {
    fn from(operation: WorldOperation) -> (r: Self) {
        CapabilityOperation::World(operation)
    }
}

impl vstd::std_specs::convert::FromSpecImpl<WorldOperation> for CapabilityOperation {
    open spec fn obeys_from_spec() -> bool {
        true
    }

    open spec fn from_spec(operation: WorldOperation) -> Self {
        CapabilityOperation::World(operation)
    }
}

/// Provider failure after manifest authorization succeeded.
#[derive(Clone, Debug, Eq, PartialEq)]
pub enum CapabilityProviderError {
    /// The host cancelled the operation before it settled.
    Cancelled,
    /// The provider rejected the request or encountered a safe-to-report failure.
    Failed(String),
}

/// Model of a [`CapabilityProviderError`].
#[verifier::ext_equal]
pub enum ProviderErrorModel {
    Cancelled,
    Failed(Seq<char>),
}

impl View for CapabilityProviderError {
    type V = ProviderErrorModel;

    open spec fn view(&self) -> ProviderErrorModel {
        match *self {
            CapabilityProviderError::Cancelled => ProviderErrorModel::Cancelled,
            CapabilityProviderError::Failed(message) => ProviderErrorModel::Failed(message@),
        }
    }
}

impl ProviderErrorModel {
    /// Diagnostic text of a failure.
    pub open spec fn text(self) -> Seq<char> {
        match self {
            ProviderErrorModel::Cancelled => "capability operation cancelled"@,
            ProviderErrorModel::Failed(message) => message,
        }
    }
}

impl CapabilityProviderError {
    /// Diagnostic text of this failure.
    pub fn text(&self) -> (r: String)
        ensures
            r@ == self@.text(),
    {
        match self {
            CapabilityProviderError::Cancelled => "capability operation cancelled".to_owned(),
            CapabilityProviderError::Failed(message) => message.clone(),
        }
    }
}

/// Validation and encoding errors at the capability boundary.
#[derive(Clone, Debug, Eq, PartialEq)]
pub enum CapabilityError {
    /// JSON text could not be read.
    Json(JsonError),
    /// A JSON value did not have the expected shape.
    Malformed { path: String, message: String },
    /// A manifest used an ABI version that is not understood.
    UnsupportedAbiVersion { expected: u64, actual: u64 },
    /// A module was granted more than once.
    DuplicateGrant { module: CapabilityModule },
    /// An operation was listed more than once.
    DuplicateOperation { module: CapabilityModule, operation: String },
    /// An operation belongs to a different module than its grant.
    OperationModuleMismatch { module: CapabilityModule, operation: String },
    /// A request did not have a matching explicit grant.
    Denied { module: CapabilityModule, operation: String },
    /// A provider failed after authorization.
    Provider(CapabilityProviderError),
}

/// Model of a [`CapabilityError`].
#[verifier::ext_equal]
pub enum CapabilityErrorModel {
    Json { message: Seq<char> },
    Malformed { path: Seq<char>, message: Seq<char> },
    UnsupportedAbiVersion { expected: u64, actual: u64 },
    DuplicateGrant { module: CapabilityModule },
    DuplicateOperation { module: CapabilityModule, operation: Seq<char> },
    OperationModuleMismatch { module: CapabilityModule, operation: Seq<char> },
    Denied { module: CapabilityModule, operation: Seq<char> },
    Provider(ProviderErrorModel),
}

impl View for CapabilityError {
    type V = CapabilityErrorModel;

    open spec fn view(&self) -> CapabilityErrorModel {
        match *self {
            CapabilityError::Json(error) => CapabilityErrorModel::Json { message: error.message@ },
            CapabilityError::Malformed { path, message } => CapabilityErrorModel::Malformed {
                path: path@,
                message: message@,
            },
            CapabilityError::UnsupportedAbiVersion { expected, actual } => {
                CapabilityErrorModel::UnsupportedAbiVersion { expected, actual }
            },
            CapabilityError::DuplicateGrant { module } => CapabilityErrorModel::DuplicateGrant {
                module,
            },
            CapabilityError::DuplicateOperation { module, operation } => {
                CapabilityErrorModel::DuplicateOperation { module, operation: operation@ }
            },
            CapabilityError::OperationModuleMismatch { module, operation } => {
                CapabilityErrorModel::OperationModuleMismatch { module, operation: operation@ }
            },
            CapabilityError::Denied { module, operation } => CapabilityErrorModel::Denied {
                module,
                operation: operation@,
            },
            CapabilityError::Provider(error) => CapabilityErrorModel::Provider(error@),
        }
    }
}

impl CapabilityErrorModel {
    /// Diagnostic text of a failure.
    pub open spec fn text(self) -> Seq<char> {
        match self {
            CapabilityErrorModel::Json { message } => "capability JSON error: "@ + message,
            CapabilityErrorModel::Malformed { path, message } => "malformed capability "@ + path
                + ": "@ + message,
            CapabilityErrorModel::UnsupportedAbiVersion { expected, actual } => {
                "unsupported capability ABI version "@ + digits(actual as nat) + "; expected "@
                    + digits(expected as nat)
            },
            CapabilityErrorModel::DuplicateGrant { module } => "duplicate capability grant for "@
                + module.spec_name(),
            CapabilityErrorModel::DuplicateOperation { module, operation } => {
                "duplicate operation "@ + debug_quoted(operation) + " in "@ + module.spec_name()
            },
            CapabilityErrorModel::OperationModuleMismatch { module, operation } => {
                "operation "@ + debug_quoted(operation) + " does not belong to "@
                    + module.spec_name()
            },
            CapabilityErrorModel::Denied { module, operation } => "capability denied: "@
                + module.spec_name() + " operation "@ + debug_quoted(operation),
            CapabilityErrorModel::Provider(error) => "capability provider failed: "@
                + error.text(),
        }
    }
}

impl CapabilityError {
    /// Diagnostic text of this failure.
    pub fn text(&self) -> (r: String)
        ensures
            r@ == self@.text(),
    {
        match self {
            CapabilityError::Json(error) => joined(
                "capability JSON error: ",
                error.message.as_str(),
            ),
            CapabilityError::Malformed { path, message } => {
                let mut out = joined("malformed capability ", path.as_str());
                out.push_str(": ");
                out.push_str(message.as_str());
                out
            },
            CapabilityError::UnsupportedAbiVersion { expected, actual } => {
                let mut out = "unsupported capability ABI version ".to_owned();
                push_number(&mut out, *actual);
                out.push_str("; expected ");
                push_number(&mut out, *expected);
                out
            },
            CapabilityError::DuplicateGrant { module } => joined(
                "duplicate capability grant for ",
                module.as_str(),
            ),
            CapabilityError::DuplicateOperation { module, operation } => {
                let mut out = joined("duplicate operation ", quoted(operation.as_str()).as_str());
                out.push_str(" in ");
                out.push_str(module.as_str());
                out
            },
            CapabilityError::OperationModuleMismatch { module, operation } => {
                let mut out = joined("operation ", quoted(operation.as_str()).as_str());
                out.push_str(" does not belong to ");
                out.push_str(module.as_str());
                out
            },
            CapabilityError::Denied { module, operation } => {
                let mut out = joined("capability denied: ", module.as_str());
                out.push_str(" operation ");
                out.push_str(quoted(operation.as_str()).as_str());
                out
            },
            CapabilityError::Provider(error) => joined(
                "capability provider failed: ",
                error.text().as_str(),
            ),
        }
    }
}

/// A value of the wrong shape at a path.
pub open spec fn malformed_model(path: Seq<char>, message: Seq<char>) -> CapabilityErrorModel {
    CapabilityErrorModel::Malformed { path, message }
}

fn malformed(path: &str, message: &str) -> (r: CapabilityError)
    ensures
        r@ == malformed_model(path@, message@),
{
    CapabilityError::Malformed { path: path.to_owned(), message: message.to_owned() }
}

/// A step of reading a manifest, or its error.
pub type Read<T> = Result<T, CapabilityErrorModel>;

/// Operations with one more, at its place in the order.
pub open spec fn inserted(s: Seq<OperationModel>, op: OperationModel) -> Seq<OperationModel>
    decreases s.len(),
{
    if s.len() == 0 {
        seq![op]
    } else if op_before(s.last(), op) {
        s.push(op)
    } else {
        inserted(s.drop_last(), op).push(s.last())
    }
}

/// Whether operations stand in the order of the manifest, none twice.
pub open spec fn ordered(s: Seq<OperationModel>) -> bool {
    forall|i: int, j: int| 0 <= i < j < s.len() ==> op_before(#[trigger] s[i], #[trigger] s[j])
}

/// Whether all operations belong to one module.
pub open spec fn within(s: Seq<OperationModel>, module: CapabilityModule) -> bool {
    forall|i: int| 0 <= i < s.len() ==> (#[trigger] s[i]).module() == module
}

/// The operations of a grant, in order, or the first fault of a list of them.
pub open spec fn granted(module: CapabilityModule, ops: Seq<OperationModel>) -> Read<
    Seq<OperationModel>,
>
    decreases ops.len(),
{
    if ops.len() == 0 {
        Ok(Seq::empty())
    } else {
        match granted(module, ops.drop_last()) {
            Err(error) => Err(error),
            Ok(s) => if ops.last().module() != module {
                Err(
                    CapabilityErrorModel::OperationModuleMismatch {
                        module,
                        operation: ops.last().name(),
                    },
                )
            } else if s.contains(ops.last()) {
                Err(
                    CapabilityErrorModel::DuplicateOperation {
                        module,
                        operation: ops.last().name(),
                    },
                )
            } else {
                Ok(inserted(s, ops.last()))
            },
        }
    }
}

proof fn lemma_inserted(s: Seq<OperationModel>, op: OperationModel, module: CapabilityModule)
    requires
        ordered(s),
        within(s, module),
        op.module() == module,
        !s.contains(op),
    ensures
        ordered(inserted(s, op)),
        within(inserted(s, op), module),
        forall|x: OperationModel| #[trigger] inserted(s, op).contains(x) <==> s.contains(x) || x == op,
    decreases s.len(),
{
    let r = inserted(s, op);
    if s.len() == 0 {
        assert(r[0] == op);
    } else if op_before(s.last(), op) {
        assert forall|i: int, j: int| 0 <= i < j < r.len() implies op_before(
            #[trigger] r[i],
            #[trigger] r[j],
        ) by {
            if j == s.len() && i < s.len() - 1 {
                lemma_op_trans(s[i], s.last(), op);
            }
        }
        assert forall|x: OperationModel| #[trigger] r.contains(x) <==> s.contains(x) || x == op by {
            if s.contains(x) {
                let k = choose|k: int| 0 <= k < s.len() && s[k] == x;
                assert(r[k] == x);
            }
            assert(r[s.len() as int] == op);
        }
    } else {
        let front = s.drop_last();
        assert(forall|i: int| 0 <= i < front.len() ==> front[i] == s[i]);
        assert(!front.contains(op)) by {
            if front.contains(op) {
                let k = choose|k: int| 0 <= k < front.len() && front[k] == op;
                assert(s[k] == op);
            }
        }
        lemma_inserted(front, op, module);
        lemma_op_order(s.last(), op);
        assert(s.last() != op) by {
            assert(s[s.len() - 1] == s.last());
        }
        let small = inserted(front, op);
        assert forall|i: int, j: int| 0 <= i < j < r.len() implies op_before(
            #[trigger] r[i],
            #[trigger] r[j],
        ) by {
            if j == small.len() {
                assert(small.contains(small[i]));
                if r[i] != op {
                    assert(front.contains(r[i]));
                    let k = choose|k: int| 0 <= k < front.len() && front[k] == r[i];
                    assert(op_before(s[k], s[s.len() - 1]));
                }
            }
        }
        assert forall|x: OperationModel| #[trigger] r.contains(x) <==> s.contains(x) || x == op by {
            if r.contains(x) {
                let k = choose|k: int| 0 <= k < r.len() && r[k] == x;
                if k < small.len() {
                    assert(small.contains(x));
                    if x != op {
                        let m = choose|m: int| 0 <= m < front.len() && front[m] == x;
                        assert(s[m] == x);
                    }
                } else {
                    assert(s[s.len() - 1] == x);
                }
            }
            if s.contains(x) {
                let k = choose|k: int| 0 <= k < s.len() && s[k] == x;
                if k < front.len() {
                    assert(front[k] == x);
                    assert(small.contains(x));
                    let m = choose|m: int| 0 <= m < small.len() && small[m] == x;
                    assert(r[m] == x);
                } else {
                    assert(r[small.len() as int] == x);
                }
            }
            if x == op {
                assert(small.contains(op));
                let m = choose|m: int| 0 <= m < small.len() && small[m] == op;
                assert(r[m] == op);
            }
        }
    }
}

/// The operations of a grant are in order, belong to its module, and are those of the list.
pub proof fn law_grant_is_ordered(module: CapabilityModule, ops: Seq<OperationModel>)
    ensures
        granted(module, ops) matches Ok(s) ==> ordered(s) && within(s, module) && forall|
            x: OperationModel,
        | #[trigger]
            s.contains(x) <==> ops.contains(x),
    decreases ops.len(),
{
    if ops.len() > 0 {
        law_grant_is_ordered(module, ops.drop_last());
        if let Ok(s) = granted(module, ops.drop_last()) {
            if ops.last().module() == module && !s.contains(ops.last()) {
                lemma_inserted(s, ops.last(), module);
                let r = inserted(s, ops.last());
                assert forall|x: OperationModel| #[trigger]
                    r.contains(x) <==> ops.contains(x) by {
                    if ops.drop_last().contains(x) {
                        let k = choose|k: int|
                            0 <= k < ops.drop_last().len() && ops.drop_last()[k] == x;
                        assert(ops[k] == x);
                    }
                    assert(ops[ops.len() - 1] == ops.last());
                    if ops.contains(x) && x != ops.last() {
                        let k = choose|k: int| 0 <= k < ops.len() && ops[k] == x;
                        assert(ops.drop_last()[k] == x);
                    }
                }
            }
        }
    }
}

/// Granting operations that are in order already keeps them as they are.
proof fn lemma_granted_ordered(module: CapabilityModule, ops: Seq<OperationModel>)
    requires
        ordered(ops),
        within(ops, module),
    ensures
        granted(module, ops) == Ok::<Seq<OperationModel>, CapabilityErrorModel>(ops),
    decreases ops.len(),
{
    if ops.len() == 0 {
        assert(ops =~= Seq::empty());
    } else {
        let front = ops.drop_last();
        lemma_granted_ordered(module, front);
        assert(ops[ops.len() - 1] == ops.last());
        if front.contains(ops.last()) {
            let k = choose|k: int| 0 <= k < front.len() && front[k] == ops.last();
            lemma_op_order(ops[k], ops[ops.len() - 1]);
        }
        assert(ops =~= front.push(ops.last()));
        if front.len() > 0 {
            assert(op_before(ops[ops.len() - 2], ops[ops.len() - 1]));
            assert(inserted(front, ops.last()) == front.push(ops.last()));
        } else {
            assert(inserted(front, ops.last()) =~= ops);
        }
    }
}

/// A validated set of operations for exactly one virtual module.
#[derive(Clone, Debug, Eq, PartialEq)]
pub struct CapabilityGrant {
    module: CapabilityModule,
    operations: Vec<CapabilityOperation>,
}

/// Model of a [`CapabilityGrant`].
#[verifier::ext_equal]
pub struct GrantModel {
    pub module: CapabilityModule,
    pub operations: Seq<OperationModel>,
}

impl View for CapabilityGrant {
    type V = GrantModel;

    closed spec fn view(&self) -> GrantModel {
        GrantModel { module: self.module, operations: crate::model::views(self.operations@) }
    }
}

impl GrantModel {
    /// Whether a grant covers a requested operation.
    pub open spec fn allows(self, requested: OperationModel) -> bool {
        exists|i: int|
            0 <= i < self.operations.len() && (#[trigger] self.operations[i]).covers(requested)
    }
}

proof fn lemma_granted_prefix(module: CapabilityModule, ops: Seq<OperationModel>, k: int)
    requires
        0 <= k <= ops.len(),
        granted(module, ops.take(k)) is Err,
    ensures
        granted(module, ops) == granted(module, ops.take(k)),
    decreases ops.len() - k,
{
    if k == ops.len() {
        assert(ops.take(k) =~= ops);
    } else {
        assert(ops.take(k + 1).drop_last() =~= ops.take(k));
        lemma_granted_prefix(module, ops, k + 1);
    }
}

/// Put an operation at its place.
fn insert_operation(operations: &mut Vec<CapabilityOperation>, operation: CapabilityOperation)
    ensures
        crate::model::views(final(operations)@) == inserted(
            crate::model::views(old(operations)@),
            operation@,
        ),
{
    let ghost all = crate::model::views(operations@);
    let mut i: usize = operations.len();
    assert(all.take(i as int) =~= all);
    assert(inserted(all, operation@) + all.skip(i as int) =~= inserted(all, operation@));
    while i > 0 && !operations[i - 1].comes_before(&operation)
        invariant
            i <= operations@.len(),
            all == crate::model::views(operations@),
            inserted(all, operation@) == inserted(all.take(i as int), operation@) + all.skip(
                i as int,
            ),
        decreases i,
    {
        proof {
            let part = all.take(i as int);
            assert(part.last() == operations@[i - 1]@);
            assert(part.drop_last() =~= all.take(i - 1));
            assert(inserted(all.take(i - 1), operation@).push(part.last()) + all.skip(i as int)
                =~= inserted(all.take(i - 1), operation@) + all.skip(i - 1));
        }
        i = i - 1;
    }
    proof {
        let part = all.take(i as int);
        if i > 0 {
            assert(part.last() == operations@[i - 1]@);
        }
        assert(inserted(part, operation@) =~= part.push(operation@));
    }
    operations.insert(i, operation);
    assert(crate::model::views(operations@) =~= all.take(i as int).push(operation@) + all.skip(
        i as int,
    ));
}

impl CapabilityGrant {
    /// Construct and validate a grant for one module.
    pub fn new(module: CapabilityModule, operations: Vec<CapabilityOperation>) -> (r: Result<
        Self,
        CapabilityError,
    >)
        ensures
            match granted(module, crate::model::views(operations@)) {
                Ok(s) => r matches Ok(grant) && grant@ == (GrantModel { module, operations: s }),
                Err(error) => r matches Err(e) && e@ == error,
            },
    {
        let ghost all = crate::model::views(operations@);
        let mut validated: Vec<CapabilityOperation> = Vec::new();
        let mut i: usize = 0;
        assert(crate::model::views(validated@) =~= Seq::<OperationModel>::empty());
        while i < operations.len()
            invariant
                i <= operations@.len(),
                all == crate::model::views(operations@),
                granted(module, all.take(i as int)) == Ok::<
                    Seq<OperationModel>,
                    CapabilityErrorModel,
                >(crate::model::views(validated@)),
            decreases operations.len() - i,
        {
            let operation = &operations[i];
            proof {
                assert(all.take(i + 1).drop_last() =~= all.take(i as int));
                assert(all.take(i + 1).last() == operation@);
                law_grant_is_ordered(module, all.take(i as int));
            }
            if operation.module() != module {
                proof {
                    lemma_granted_prefix(module, all, i + 1);
                }
                return Err(
                    CapabilityError::OperationModuleMismatch {
                        module,
                        operation: operation.sort_key(),
                    },
                );
            }
            if holds(&validated, operation, module) {
                proof {
                    lemma_granted_prefix(module, all, i + 1);
                }
                return Err(
                    CapabilityError::DuplicateOperation {
                        module,
                        operation: operation.sort_key(),
                    },
                );
            }
            insert_operation(&mut validated, operation.duplicate());
            i = i + 1;
        }
        assert(all.take(i as int) =~= all);
        Ok(CapabilityGrant { module, operations: validated })
    }

    /// The module receiving this grant.
    pub fn module(&self) -> (r: CapabilityModule)
        ensures
            r == self@.module,
    {
        self.module
    }

    /// The operations in deterministic order.
    pub fn operations(&self) -> (r: &Vec<CapabilityOperation>)
        ensures
            crate::model::views(r@) == self@.operations,
    {
        &self.operations
    }

    fn allows(&self, requested: &CapabilityOperation) -> (r: bool)
        ensures
            r == self@.allows(requested@),
    {
        let mut i: usize = 0;
        while i < self.operations.len()
            invariant
                i <= self.operations@.len(),
                forall|k: int|
                    0 <= k < i ==> !(#[trigger] self@.operations[k]).covers(requested@),
            decreases self.operations.len() - i,
        {
            let operation = &self.operations[i];
            assert(self@.operations[i as int] == operation@);
            if operation.module() == requested.module() {
                if operation.covers(requested) {
                    return true;
                }
            }
            i = i + 1;
        }
        false
    }
}

/// Whether operations of a module hold one.
fn holds(
    operations: &Vec<CapabilityOperation>,
    operation: &CapabilityOperation,
    module: CapabilityModule,
) -> (r: bool)
    requires
        within(crate::model::views(operations@), module),
        operation@.module() == module,
    ensures
        r == crate::model::views(operations@).contains(operation@),
{
    let ghost all = crate::model::views(operations@);
    let mut i: usize = 0;
    while i < operations.len()
        invariant
            i <= operations@.len(),
            all == crate::model::views(operations@),
            within(all, module),
            operation@.module() == module,
            forall|k: int| 0 <= k < i ==> (#[trigger] all[k]) != operation@,
        decreases operations.len() - i,
    {
        assert(all[i as int] == operations@[i as int]@);
        if operations[i].equals(operation) {
            return true;
        }
        i = i + 1;
    }
    false
}

impl Duplicate for CapabilityGrant {
    fn duplicate(&self) -> (r: Self) {
        CapabilityGrant { module: self.module, operations: duplicate_all(&self.operations) }
    }
}

/// A complete, deterministic capability grant set for one extension.
#[derive(Debug, Eq, PartialEq)]
pub struct CapabilityManifest {
    abi_version: u64,
    agent: Option<CapabilityGrant>,
    world: Option<CapabilityGrant>,
    trace: Option<CapabilityGrant>,
    task: Option<CapabilityGrant>,
    json: Option<CapabilityGrant>,
    time: Option<CapabilityGrant>,
}

/// Model of a [`CapabilityManifest`]: the grant of each module that has authority.
#[verifier::ext_equal]
pub struct ManifestModel {
    pub abi_version: u64,
    pub agent: Option<GrantModel>,
    pub world: Option<GrantModel>,
    pub trace: Option<GrantModel>,
    pub task: Option<GrantModel>,
    pub json: Option<GrantModel>,
    pub time: Option<GrantModel>,
}

impl View for CapabilityManifest {
    type V = ManifestModel;

    closed spec fn view(&self) -> ManifestModel {
        ManifestModel {
            abi_version: self.abi_version,
            agent: crate::model::opt_view(self.agent),
            world: crate::model::opt_view(self.world),
            trace: crate::model::opt_view(self.trace),
            task: crate::model::opt_view(self.task),
            json: crate::model::opt_view(self.json),
            time: crate::model::opt_view(self.time),
        }
    }
}

impl Clone for CapabilityManifest {
    fn clone(&self) -> (r: Self)
        ensures
            r@ == self@,
    {
        proof {
            use_type_invariant(self);
        }
        CapabilityManifest {
            abi_version: self.abi_version,
            agent: duplicate_opt(&self.agent),
            world: duplicate_opt(&self.world),
            trace: duplicate_opt(&self.trace),
            task: duplicate_opt(&self.task),
            json: duplicate_opt(&self.json),
            time: duplicate_opt(&self.time),
        }
    }
}

impl ManifestModel {
    /// The manifest without authority.
    pub open spec fn none() -> ManifestModel {
        ManifestModel {
            abi_version: CAPABILITY_ABI_VERSION,
            agent: None,
            world: None,
            trace: None,
            task: None,
            json: None,
            time: None,
        }
    }

    /// The grant of a module.
    pub open spec fn get(self, module: CapabilityModule) -> Option<GrantModel> {
        match module {
            CapabilityModule::Agent => self.agent,
            CapabilityModule::World => self.world,
            CapabilityModule::Trace => self.trace,
            CapabilityModule::Task => self.task,
            CapabilityModule::Json => self.json,
            CapabilityModule::Time => self.time,
        }
    }

    /// The manifest with the grant of a module.
    pub open spec fn with(self, module: CapabilityModule, grant: GrantModel) -> ManifestModel {
        match module {
            CapabilityModule::Agent => ManifestModel { agent: Some(grant), ..self },
            CapabilityModule::World => ManifestModel { world: Some(grant), ..self },
            CapabilityModule::Trace => ManifestModel { trace: Some(grant), ..self },
            CapabilityModule::Task => ManifestModel { task: Some(grant), ..self },
            CapabilityModule::Json => ManifestModel { json: Some(grant), ..self },
            CapabilityModule::Time => ManifestModel { time: Some(grant), ..self },
        }
    }

    /// Whether each grant stands under its own module.
    pub open spec fn filed(self) -> bool {
        &&& self.agent matches Some(grant) ==> grant.module is Agent
        &&& self.world matches Some(grant) ==> grant.module is World
        &&& self.trace matches Some(grant) ==> grant.module is Trace
        &&& self.task matches Some(grant) ==> grant.module is Task
        &&& self.json matches Some(grant) ==> grant.module is Json
        &&& self.time matches Some(grant) ==> grant.module is Time
    }

    /// Whether an operation is authorized.
    pub open spec fn authorizes(self, operation: OperationModel) -> bool {
        self.get(operation.module()) matches Some(grant) && grant.allows(operation)
    }

    /// What holds of a manifest made by its constructors, whose MCP names are usable.
    pub open spec fn valid(self) -> bool {
        &&& self.abi_version == CAPABILITY_ABI_VERSION
        &&& forall|module: CapabilityModule| #[trigger]
            self.get(module) matches Some(grant) ==> valid_grant(grant, module)
    }
}

/// What holds of a grant in a manifest.
pub open spec fn valid_grant(grant: GrantModel, module: CapabilityModule) -> bool {
    &&& grant.module == module
    &&& ordered(grant.operations)
    &&& within(grant.operations, module)
    &&& forall|i: int| 0 <= i < grant.operations.len() ==> (#[trigger] grant.operations[i]).named()
}

/// The manifest of a list of grants, or the first module that is granted twice.
pub open spec fn assembled(grants: Seq<GrantModel>) -> Read<ManifestModel>
    decreases grants.len(),
{
    if grants.len() == 0 {
        Ok(ManifestModel::none())
    } else {
        match assembled(grants.drop_last()) {
            Err(error) => Err(error),
            Ok(manifest) => if manifest.get(grants.last().module) is Some {
                Err(CapabilityErrorModel::DuplicateGrant { module: grants.last().module })
            } else {
                Ok(manifest.with(grants.last().module, grants.last()))
            },
        }
    }
}

proof fn lemma_assembled_prefix(grants: Seq<GrantModel>, k: int)
    requires
        0 <= k <= grants.len(),
        assembled(grants.take(k)) is Err,
    ensures
        assembled(grants) == assembled(grants.take(k)),
    decreases grants.len() - k,
{
    if k == grants.len() {
        assert(grants.take(k) =~= grants);
    } else {
        assert(grants.take(k + 1).drop_last() =~= grants.take(k));
        lemma_assembled_prefix(grants, k + 1);
    }
}

/// An operation in the manifest's form.
pub open spec fn operation_form(operation: OperationModel) -> Json {
    match operation {
        OperationModel::Mcp(permission) => {
            let base = map![
                "server"@ => Json::String(permission.server),
                "operation"@ => Json::String(permission.operation.spec_name()),
            ];
            let scope = match permission.target {
                Some(target) => base.insert("target"@, Json::String(target)),
                None => base,
            };
            Json::Object(map!["mcp"@ => Json::Object(scope)])
        },
        _ => Json::String(operation.name()),
    }
}

/// The operations of a grant in the manifest's form.
pub open spec fn grant_form(operations: Seq<OperationModel>) -> Json {
    Json::Array(operations.map_values(|operation: OperationModel| operation_form(operation)))
}

/// A manifest object with the member of a module, if that module has authority.
pub open spec fn with_module(
    object: Map<Seq<char>, Json>,
    manifest: ManifestModel,
    module: CapabilityModule,
) -> Map<Seq<char>, Json> {
    match manifest.get(module) {
        Some(grant) => object.insert(module.key(), grant_form(grant.operations)),
        None => object,
    }
}

/// A manifest in its canonical form.
pub open spec fn manifest_form(manifest: ManifestModel) -> Map<Seq<char>, Json> {
    let base = map![
        "abi_version"@ => Json::Number(NumberModel::Int(manifest.abi_version as int)),
    ];
    let agent = with_module(base, manifest, CapabilityModule::Agent);
    let world = with_module(agent, manifest, CapabilityModule::World);
    let trace = with_module(world, manifest, CapabilityModule::Trace);
    let task = with_module(trace, manifest, CapabilityModule::Task);
    let json = with_module(task, manifest, CapabilityModule::Json);
    with_module(json, manifest, CapabilityModule::Time)
}

fn make_operation(operation: &CapabilityOperation) -> (r: JsonValue)
    ensures
        r@ == operation_form(operation@),
{
    match operation {
        CapabilityOperation::World(WorldOperation::Mcp(permission)) => {
            let mut scope = JsonObject::new().with(
                "server",
                JsonValue::text(permission.server.as_str()),
            ).with("operation", JsonValue::text(permission.operation.as_str()));
            if let Some(target) = &permission.target {
                scope = scope.with("target", JsonValue::text(target.as_str()));
            }
            JsonValue::object(JsonObject::new().with("mcp", JsonValue::object(scope)))
        },
        _ => JsonValue::text(operation.sort_key().as_str()),
    }
}

fn make_grant(grant: &CapabilityGrant) -> (r: JsonValue)
    ensures
        r@ == grant_form(grant@.operations),
{
    let ghost all = grant@.operations;
    let mut out: Vec<JsonValue> = Vec::new();
    let mut i: usize = 0;
    while i < grant.operations.len()
        invariant
            i <= grant.operations@.len(),
            all == crate::model::views(grant.operations@),
            crate::model::views(out@) == all.take(i as int).map_values(
                |operation: OperationModel| operation_form(operation),
            ),
        decreases grant.operations.len() - i,
    {
        out.push(make_operation(&grant.operations[i]));
        i = i + 1;
        proof {
            assert(all[i - 1] == grant.operations@[i - 1]@);
            assert(crate::model::views(out@) =~= all.take(i as int).map_values(
                |operation: OperationModel| operation_form(operation),
            ));
        }
    }
    assert(all.take(i as int) =~= all);
    JsonValue::array(out)
}

/// A value of the wrong kind.
pub open spec fn wrong_kind(expected: Seq<char>, value: Json) -> Seq<char> {
    expected + value.kind().spec_name()
}

/// The members of a value that has to be an object.
pub open spec fn object_at(value: Json, path: Seq<char>) -> Read<Map<Seq<char>, Json>> {
    match value {
        Json::Object(object) => Ok(object),
        _ => Err(malformed_model(path, wrong_kind("expected object, got "@, value))),
    }
}

/// The text of a value that has to be a string with visible characters.
pub open spec fn text_at(value: Json, path: Seq<char>) -> Read<Seq<char>> {
    match value {
        Json::String(text) => if is_blank(text) {
            Err(malformed_model(path, "must not be empty"@))
        } else {
            Ok(text)
        },
        _ => Err(malformed_model(path, wrong_kind("expected string, got "@, value))),
    }
}

/// The text of a member that has to be there.
pub open spec fn required_text(
    object: Map<Seq<char>, Json>,
    key: Seq<char>,
    path: Seq<char>,
) -> Read<Seq<char>> {
    match member(object, key) {
        None => Err(malformed_model(path + "."@ + key, "missing required field"@)),
        Some(value) => text_at(value, path + "."@ + key),
    }
}

/// Whether a member is the first, in the order of its characters, that is not known.
pub open spec fn is_least_unknown(
    object: Map<Seq<char>, Json>,
    known: Seq<&str>,
    key: Seq<char>,
) -> bool {
    &&& object.contains_key(key)
    &&& !listed(known, key)
    &&& forall|other: Seq<char>| #[trigger]
        object.contains_key(other) && !listed(known, other) ==> !before(other, key)
}

/// The error of an object with unknown members.
pub open spec fn unknown_fault(
    object: Map<Seq<char>, Json>,
    known: Seq<&str>,
    path: Seq<char>,
) -> Option<CapabilityErrorModel> {
    if exists|key: Seq<char>| #[trigger] object.contains_key(key) && !listed(known, key) {
        let key = choose|key: Seq<char>| #[trigger] is_least_unknown(object, known, key);
        Some(malformed_model(path, "unknown field "@ + debug_quoted(key)))
    } else {
        None
    }
}

fn expect_object<'a>(value: &'a JsonValue, path: &str) -> (r: Result<
    &'a JsonObject,
    CapabilityError,
>)
    ensures
        match r {
            Ok(object) => object_at(value@, path@) == Ok::<_, CapabilityErrorModel>(object@),
            Err(error) => object_at(value@, path@) == Err::<
                Map<Seq<char>, Json>,
                CapabilityErrorModel,
            >(error@),
        },
{
    match value.as_object() {
        Some(object) => Ok(object),
        None => Err(
            malformed(path, joined("expected object, got ", value.kind().name()).as_str()),
        ),
    }
}

fn expect_string<'a>(value: &'a JsonValue, path: &str) -> (r: Result<&'a str, CapabilityError>)
    ensures
        match r {
            Ok(text) => text_at(value@, path@) == Ok::<Seq<char>, CapabilityErrorModel>(text@),
            Err(error) => text_at(value@, path@) == Err::<Seq<char>, CapabilityErrorModel>(error@),
        },
{
    match value.as_str() {
        Some(text) => if blank(text) {
            Err(malformed(path, "must not be empty"))
        } else {
            Ok(text)
        },
        None => Err(
            malformed(path, joined("expected string, got ", value.kind().name()).as_str()),
        ),
    }
}

fn dotted(path: &str, key: &str) -> (r: String)
    ensures
        r@ == path@ + "."@ + key@,
{
    let mut out = joined(path, ".");
    out.push_str(key);
    out
}

fn required_string(object: &JsonObject, key: &str, path: &str) -> (r: Result<
    String,
    CapabilityError,
>)
    ensures
        match r {
            Ok(text) => required_text(object@, key@, path@) == Ok::<
                Seq<char>,
                CapabilityErrorModel,
            >(text@),
            Err(error) => required_text(object@, key@, path@) == Err::<
                Seq<char>,
                CapabilityErrorModel,
            >(error@),
        },
{
    let place = dotted(path, key);
    match object.get(key) {
        None => Err(malformed(place.as_str(), "missing required field")),
        Some(value) => match expect_string(value, place.as_str()) {
            Ok(text) => Ok(text.to_owned()),
            Err(error) => Err(error),
        },
    }
}

fn reject_unknown_keys(object: &JsonObject, known: &Vec<&str>, path: &str) -> (r: Result<
    (),
    CapabilityError,
>)
    ensures
        match unknown_fault(object@, known@, path@) {
            None => r is Ok,
            Some(error) => r matches Err(e) && e@ == error,
        },
{
    match object.least_unknown(known) {
        None => Ok(()),
        Some(key) => {
            proof {
                assert(is_least_unknown(object@, known@, key@));
                let chosen = choose|k: Seq<char>| #[trigger] is_least_unknown(object@, known@, k);
                lemma_before_total(chosen, key@);
                assert(object@.contains_key(chosen) && !listed(known@, chosen));
                assert(chosen == key@);
            }
            Err(malformed(path, joined("unknown field ", quoted(key).as_str()).as_str()))
        },
    }
}

/// The operation of a module with a name.
pub open spec fn simple_operation(module: CapabilityModule, name: Seq<char>) -> Option<
    OperationModel,
> {
    match module {
        CapabilityModule::Agent => match AgentOperation::spec_parse(name) {
            Some(operation) => Some(OperationModel::Agent(operation)),
            None => None,
        },
        CapabilityModule::World => if name == "fs.read"@ {
            Some(OperationModel::FsRead)
        } else if name == "fs.write"@ {
            Some(OperationModel::FsWrite)
        } else if name == "exec"@ {
            Some(OperationModel::Exec)
        } else {
            None
        },
        CapabilityModule::Trace => match TraceOperation::spec_parse(name) {
            Some(operation) => Some(OperationModel::Trace(operation)),
            None => None,
        },
        CapabilityModule::Task => match TaskOperation::spec_parse(name) {
            Some(operation) => Some(OperationModel::Task(operation)),
            None => None,
        },
        CapabilityModule::Json => match JsonOperation::spec_parse(name) {
            Some(operation) => Some(OperationModel::Json(operation)),
            None => None,
        },
        CapabilityModule::Time => match TimeOperation::spec_parse(name) {
            Some(operation) => Some(OperationModel::Time(operation)),
            None => None,
        },
    }
}

/// The members of an MCP scope.
pub open spec fn scope_keys() -> Seq<&'static str> {
    seq!["server", "operation", "target"]
}

/// An MCP operation of a manifest.
pub open spec fn read_mcp(value: Json, path: Seq<char>) -> Read<OperationModel> {
    let place = path + ".mcp"@;
    match object_at(value, place) {
        Err(error) => Err(error),
        Ok(object) => match unknown_fault(object, scope_keys(), place) {
            Some(error) => Err(error),
            None => match required_text(object, "server"@, place) {
                Err(error) => Err(error),
                Ok(server) => match required_text(object, "operation"@, place) {
                    Err(error) => Err(error),
                    Ok(name) => match McpOperation::spec_parse(name) {
                        None => Err(
                            malformed_model(
                                place + ".operation"@,
                                "unknown MCP operation "@ + debug_quoted(name),
                            ),
                        ),
                        Some(operation) => match member(object, "target"@) {
                            None => Ok(
                                OperationModel::Mcp(McpModel { server, operation, target: None }),
                            ),
                            Some(value) => match text_at(value, place + ".target"@) {
                                Err(error) => Err(error),
                                Ok(target) => Ok(
                                    OperationModel::Mcp(
                                        McpModel { server, operation, target: Some(target) },
                                    ),
                                ),
                            },
                        },
                    },
                },
            },
        },
    }
}

/// One operation of a grant in a manifest.
pub open spec fn read_operation(module: CapabilityModule, value: Json, path: Seq<char>) -> Read<
    OperationModel,
> {
    match value {
        Json::String(name) => match simple_operation(module, name) {
            Some(operation) => Ok(operation),
            None => Err(
                malformed_model(
                    path,
                    "unknown operation "@ + debug_quoted(name) + " for "@ + module.spec_name(),
                ),
            ),
        },
        Json::Object(object) if module == CapabilityModule::World => match unknown_fault(
            object,
            seq!["mcp"],
            path,
        ) {
            Some(error) => Err(error),
            None => match member(object, "mcp"@) {
                None => Err(malformed_model(path, "missing mcp"@)),
                Some(scope) => read_mcp(scope, path),
            },
        },
        _ => Err(malformed_model(path, "expected a known operation string"@)),
    }
}

/// The operations of a grant in a manifest, as listed.
pub open spec fn read_operations(module: CapabilityModule, values: Seq<Json>) -> Read<
    Seq<OperationModel>,
>
    decreases values.len(),
{
    if values.len() == 0 {
        Ok(Seq::empty())
    } else {
        match read_operations(module, values.drop_last()) {
            Err(error) => Err(error),
            Ok(before) => match read_operation(
                module,
                values.last(),
                module.key() + "["@ + digits((values.len() - 1) as nat) + "]"@,
            ) {
                Err(error) => Err(error),
                Ok(operation) => Ok(before.push(operation)),
            },
        }
    }
}

/// The grant of a module in a manifest.
pub open spec fn read_grant(module: CapabilityModule, value: Json) -> Read<GrantModel> {
    match value {
        Json::Array(values) => match read_operations(module, values) {
            Err(error) => Err(error),
            Ok(listed) => match granted(module, listed) {
                Err(error) => Err(error),
                Ok(operations) => Ok(GrantModel { module, operations }),
            },
        },
        _ => Err(malformed_model(module.key(), wrong_kind("expected array, got "@, value))),
    }
}

/// The modules in the order in which a manifest is read.
pub open spec fn module_at(k: int) -> CapabilityModule {
    if k == 0 {
        CapabilityModule::Agent
    } else if k == 1 {
        CapabilityModule::World
    } else if k == 2 {
        CapabilityModule::Trace
    } else if k == 3 {
        CapabilityModule::Task
    } else if k == 4 {
        CapabilityModule::Json
    } else {
        CapabilityModule::Time
    }
}

/// The manifest of the first `k` modules of an object.
pub open spec fn read_modules(object: Map<Seq<char>, Json>, k: nat) -> Read<ManifestModel>
    decreases k,
{
    if k == 0 {
        Ok(ManifestModel::none())
    } else {
        let module = module_at(k - 1);
        match read_modules(object, (k - 1) as nat) {
            Err(error) => Err(error),
            Ok(manifest) => match member(object, module.key()) {
                None => Ok(manifest),
                Some(value) => match read_grant(module, value) {
                    Err(error) => Err(error),
                    Ok(grant) => Ok(manifest.with(module, grant)),
                },
            },
        }
    }
}

/// The members of a manifest.
pub open spec fn manifest_keys() -> Seq<&'static str> {
    seq!["abi_version", "agent", "world", "trace", "task", "json", "time"]
}

/// The ABI version of a manifest.
pub open spec fn read_version(object: Map<Seq<char>, Json>) -> Read<u64> {
    match member(object, "abi_version"@) {
        None => Err(malformed_model("abi_version"@, "missing required field"@)),
        Some(value) => match value.natural() {
            Some(version) => Ok(version),
            None => Err(
                malformed_model(
                    "abi_version"@,
                    wrong_kind("expected non-negative integer, got "@, value),
                ),
            ),
        },
    }
}

/// The manifest that a value stands for.
pub open spec fn read_manifest(value: Json) -> Read<ManifestModel> {
    match object_at(value, "manifest"@) {
        Err(error) => Err(error),
        Ok(object) => match read_version(object) {
            Err(error) => Err(error),
            Ok(actual) => if actual != CAPABILITY_ABI_VERSION {
                Err(
                    CapabilityErrorModel::UnsupportedAbiVersion {
                        expected: CAPABILITY_ABI_VERSION,
                        actual,
                    },
                )
            } else {
                match unknown_fault(object, manifest_keys(), "manifest"@) {
                    Some(error) => Err(error),
                    None => read_modules(object, 6),
                }
            },
        },
    }
}

/// The manifest that a text writes.
pub open spec fn parsed(input: Seq<char>) -> Read<ManifestModel> {
    match serde_from_str(input) {
        Err(message) => Err(CapabilityErrorModel::Json { message }),
        Ok(value) => read_manifest(value),
    }
}

fn parse_simple_operation(module: CapabilityModule, name: &str) -> (r: Option<CapabilityOperation>)
    ensures
        crate::model::opt_view(r) == simple_operation(module, name@),
{
    match module {
        CapabilityModule::Agent => match AgentOperation::parse(name) {
            Some(operation) => Some(CapabilityOperation::Agent(operation)),
            None => None,
        },
        CapabilityModule::World => if same(name, "fs.read") {
            Some(CapabilityOperation::World(WorldOperation::FsRead))
        } else if same(name, "fs.write") {
            Some(CapabilityOperation::World(WorldOperation::FsWrite))
        } else if same(name, "exec") {
            Some(CapabilityOperation::World(WorldOperation::Exec))
        } else {
            None
        },
        CapabilityModule::Trace => match TraceOperation::parse(name) {
            Some(operation) => Some(CapabilityOperation::Trace(operation)),
            None => None,
        },
        CapabilityModule::Task => match TaskOperation::parse(name) {
            Some(operation) => Some(CapabilityOperation::Task(operation)),
            None => None,
        },
        CapabilityModule::Json => match JsonOperation::parse(name) {
            Some(operation) => Some(CapabilityOperation::Json(operation)),
            None => None,
        },
        CapabilityModule::Time => match TimeOperation::parse(name) {
            Some(operation) => Some(CapabilityOperation::Time(operation)),
            None => None,
        },
    }
}

fn parse_mcp_operation(value: &JsonValue, path: &str) -> (r: Result<
    CapabilityOperation,
    CapabilityError,
>)
    ensures
        match r {
            Ok(operation) => read_mcp(value@, path@) == Ok::<OperationModel, CapabilityErrorModel>(
                operation@,
            ),
            Err(error) => read_mcp(value@, path@) == Err::<OperationModel, CapabilityErrorModel>(
                error@,
            ),
        },
{
    let place = joined(path, ".mcp");
    let object = match expect_object(value, place.as_str()) {
        Err(error) => return Err(error),
        Ok(object) => object,
    };
    let mut known: Vec<&str> = Vec::new();
    known.push("server");
    known.push("operation");
    known.push("target");
    assert(known@ =~= scope_keys());
    if let Err(error) = reject_unknown_keys(object, &known, place.as_str()) {
        return Err(error);
    }
    let server = match required_string(object, "server", place.as_str()) {
        Err(error) => return Err(error),
        Ok(server) => server,
    };
    let name = match required_string(object, "operation", place.as_str()) {
        Err(error) => return Err(error),
        Ok(name) => name,
    };
    let operation = match McpOperation::parse(name.as_str()) {
        None => {
            let at = joined(place.as_str(), ".operation");
            let message = joined("unknown MCP operation ", quoted(name.as_str()).as_str());
            return Err(malformed(at.as_str(), message.as_str()));
        },
        Some(operation) => operation,
    };
    let target = match object.get("target") {
        None => None,
        Some(value) => match expect_string(value, joined(place.as_str(), ".target").as_str()) {
            Err(error) => return Err(error),
            Ok(text) => Some(text.to_owned()),
        },
    };
    match WorldOperation::mcp(server, operation, target) {
        Ok(operation) => Ok(CapabilityOperation::World(operation)),
        Err(error) => Err(malformed(path, error.text().as_str())),
    }
}

fn parse_operation(module: CapabilityModule, value: &JsonValue, path: &str) -> (r: Result<
    CapabilityOperation,
    CapabilityError,
>)
    ensures
        match r {
            Ok(operation) => read_operation(module, value@, path@) == Ok::<
                OperationModel,
                CapabilityErrorModel,
            >(operation@),
            Err(error) => read_operation(module, value@, path@) == Err::<
                OperationModel,
                CapabilityErrorModel,
            >(error@),
        },
{
    if let Some(name) = value.as_str() {
        return match parse_simple_operation(module, name) {
            Some(operation) => Ok(operation),
            None => {
                let mut message = joined("unknown operation ", quoted(name).as_str());
                message.push_str(" for ");
                message.push_str(module.as_str());
                Err(malformed(path, message.as_str()))
            },
        };
    }
    if module == CapabilityModule::World {
        if let Some(object) = value.as_object() {
            let mut known: Vec<&str> = Vec::new();
            known.push("mcp");
            assert(known@ =~= seq!["mcp"]);
            if let Err(error) = reject_unknown_keys(object, &known, path) {
                return Err(error);
            }
            return match object.get("mcp") {
                None => Err(malformed(path, "missing mcp")),
                Some(scope) => parse_mcp_operation(scope, path),
            };
        }
    }
    Err(malformed(path, "expected a known operation string"))
}

proof fn lemma_operations_prefix(module: CapabilityModule, values: Seq<Json>, k: int)
    requires
        0 <= k <= values.len(),
        read_operations(module, values.take(k)) is Err,
    ensures
        read_operations(module, values) == read_operations(module, values.take(k)),
    decreases values.len() - k,
{
    if k == values.len() {
        assert(values.take(k) =~= values);
    } else {
        assert(values.take(k + 1).drop_last() =~= values.take(k));
        lemma_operations_prefix(module, values, k + 1);
    }
}

fn parse_operations(module: CapabilityModule, values: &Vec<JsonValue>) -> (r: Result<
    Vec<CapabilityOperation>,
    CapabilityError,
>)
    ensures
        match r {
            Ok(operations) => read_operations(module, crate::model::views(values@)) == Ok::<
                Seq<OperationModel>,
                CapabilityErrorModel,
            >(crate::model::views(operations@)),
            Err(error) => read_operations(module, crate::model::views(values@)) == Err::<
                Seq<OperationModel>,
                CapabilityErrorModel,
            >(error@),
        },
{
    let ghost all = crate::model::views(values@);
    let mut operations: Vec<CapabilityOperation> = Vec::new();
    let mut i: usize = 0;
    assert(crate::model::views(operations@) =~= Seq::<OperationModel>::empty());
    while i < values.len()
        invariant
            i <= values@.len(),
            all == crate::model::views(values@),
            read_operations(module, all.take(i as int)) == Ok::<
                Seq<OperationModel>,
                CapabilityErrorModel,
            >(crate::model::views(operations@)),
        decreases values.len() - i,
    {
        proof {
            assert(all.take(i + 1).drop_last() =~= all.take(i as int));
            assert(all.take(i + 1).last() == values@[i as int]@);
        }
        let mut path = joined(module.json_key(), "[");
        push_number(&mut path, i as u64);
        path.push_str("]");
        match parse_operation(module, &values[i], path.as_str()) {
            Err(error) => {
                proof {
                    lemma_operations_prefix(module, all, i + 1);
                }
                return Err(error);
            },
            Ok(operation) => {
                operations.push(operation);
            },
        }
        i = i + 1;
    }
    assert(all.take(i as int) =~= all);
    Ok(operations)
}

fn parse_grant(module: CapabilityModule, value: &JsonValue) -> (r: Result<
    CapabilityGrant,
    CapabilityError,
>)
    ensures
        match r {
            Ok(grant) => read_grant(module, value@) == Ok::<GrantModel, CapabilityErrorModel>(
                grant@,
            ),
            Err(error) => read_grant(module, value@) == Err::<GrantModel, CapabilityErrorModel>(
                error@,
            ),
        },
{
    match value.as_array() {
        None => Err(
            malformed(
                module.json_key(),
                joined("expected array, got ", value.kind().name()).as_str(),
            ),
        ),
        Some(values) => match parse_operations(module, values) {
            Err(error) => Err(error),
            Ok(operations) => CapabilityGrant::new(module, operations),
        },
    }
}

fn required_u64(object: &JsonObject) -> (r: Result<u64, CapabilityError>)
    ensures
        match r {
            Ok(version) => read_version(object@) == Ok::<u64, CapabilityErrorModel>(version),
            Err(error) => read_version(object@) == Err::<u64, CapabilityErrorModel>(error@),
        },
{
    match object.get("abi_version") {
        None => Err(malformed("abi_version", "missing required field")),
        Some(value) => match value.as_u64() {
            Some(version) => Ok(version),
            None => Err(
                malformed(
                    "abi_version",
                    joined("expected non-negative integer, got ", value.kind().name()).as_str(),
                ),
            ),
        },
    }
}

impl CapabilityManifest {
    /// Construct an empty manifest with no authority.
    pub fn empty() -> (r: Self)
        ensures
            r@ == ManifestModel::none(),
    {
        CapabilityManifest {
            abi_version: CAPABILITY_ABI_VERSION,
            agent: None,
            world: None,
            trace: None,
            task: None,
            json: None,
            time: None,
        }
    }

    #[verifier::type_invariant]
    spec fn filed(self) -> bool {
        self@.filed()
    }

    fn set(&mut self, module: CapabilityModule, grant: CapabilityGrant)
        requires
            grant@.module == module,
        ensures
            final(self)@ == old(self)@.with(module, grant@),
    {
        proof {
            use_type_invariant(&*self);
        }
        let ghost before = self@;
        match module {
            CapabilityModule::Agent => self.agent = Some(grant),
            CapabilityModule::World => self.world = Some(grant),
            CapabilityModule::Trace => self.trace = Some(grant),
            CapabilityModule::Task => self.task = Some(grant),
            CapabilityModule::Json => self.json = Some(grant),
            CapabilityModule::Time => self.time = Some(grant),
        }
        assert(self@ =~= before.with(module, grant@));
    }

    /// Construct a manifest from one optional grant per virtual module.
    pub fn new(grants: Vec<CapabilityGrant>) -> (r: Result<Self, CapabilityError>)
        ensures
            match r {
                Ok(manifest) => assembled(crate::model::views(grants@)) == Ok::<
                    ManifestModel,
                    CapabilityErrorModel,
                >(manifest@),
                Err(error) => assembled(crate::model::views(grants@)) == Err::<
                    ManifestModel,
                    CapabilityErrorModel,
                >(error@),
            },
    {
        let ghost all = crate::model::views(grants@);
        let mut manifest = CapabilityManifest::empty();
        let mut i: usize = 0;
        while i < grants.len()
            invariant
                i <= grants@.len(),
                all == crate::model::views(grants@),
                assembled(all.take(i as int)) == Ok::<ManifestModel, CapabilityErrorModel>(
                    manifest@,
                ),
            decreases grants.len() - i,
        {
            let grant = &grants[i];
            proof {
                assert(all.take(i + 1).drop_last() =~= all.take(i as int));
                assert(all.take(i + 1).last() == grant@);
            }
            let module = grant.module();
            if manifest.grant(module).is_some() {
                proof {
                    lemma_assembled_prefix(all, i + 1);
                }
                return Err(CapabilityError::DuplicateGrant { module });
            }
            manifest.set(module, grant.duplicate());
            i = i + 1;
        }
        assert(all.take(i as int) =~= all);
        Ok(manifest)
    }

    /// The ABI version encoded by this manifest.
    pub fn abi_version(&self) -> (r: u64)
        ensures
            r == self@.abi_version,
    {
        self.abi_version
    }

    /// The grant for a module, if that module has authority.
    pub fn grant(&self, module: CapabilityModule) -> (r: Option<&CapabilityGrant>)
        ensures
            match r {
                Some(grant) => self@.get(module) == Some(grant@),
                None => self@.get(module) is None,
            },
    {
        match module {
            CapabilityModule::Agent => self.agent.as_ref(),
            CapabilityModule::World => self.world.as_ref(),
            CapabilityModule::Trace => self.trace.as_ref(),
            CapabilityModule::Task => self.task.as_ref(),
            CapabilityModule::Json => self.json.as_ref(),
            CapabilityModule::Time => self.time.as_ref(),
        }
    }

    /// All grants in module-name order.
    pub fn grants(&self) -> (r: Vec<&CapabilityGrant>)
        ensures
            r@.map_values(|grant: &CapabilityGrant| grant@) == grants_before(self@, 6),
            forall|i: int, j: int|
                0 <= i < j < r@.len() ==> before(
                    (#[trigger] r@[i])@.module.spec_name(),
                    (#[trigger] r@[j])@.module.spec_name(),
                ),
    {
        proof {
            use_type_invariant(self);
        }
        let mut out: Vec<&CapabilityGrant> = Vec::new();
        let mut k: usize = 0;
        assert(out@.map_values(|grant: &CapabilityGrant| grant@) =~= Seq::<GrantModel>::empty());
        while k < 6
            invariant
                k <= 6,
                out@.map_values(|grant: &CapabilityGrant| grant@) == grants_before(
                    self@,
                    k as nat,
                ),
            decreases 6 - k,
        {
            let module = named(k);
            let ghost shorter = out@;
            if let Some(grant) = self.grant(module) {
                out.push(grant);
                assert(out@.map_values(|grant: &CapabilityGrant| grant@) =~= shorter.map_values(
                    |grant: &CapabilityGrant| grant@,
                ).push(grant@));
            }
            k = k + 1;
        }
        proof {
            let models = out@.map_values(|grant: &CapabilityGrant| grant@);
            lemma_grants_are_sorted(self@, 6);
            assert forall|i: int, j: int| 0 <= i < j < out@.len() implies before(
                (#[trigger] out@[i])@.module.spec_name(),
                (#[trigger] out@[j])@.module.spec_name(),
            ) by {
                assert(models[i] == out@[i]@ && models[j] == out@[j]@);
            }
        }
        out
    }

    /// Parse and validate a complete manifest from JSON text.
    pub fn parse_json(input: &str) -> (r: Result<Self, CapabilityError>)
        ensures
            match r {
                Ok(manifest) => parsed(input@) == Ok::<ManifestModel, CapabilityErrorModel>(
                    manifest@,
                ),
                Err(error) => parsed(input@) == Err::<ManifestModel, CapabilityErrorModel>(error@),
            },
    {
        match JsonValue::parse(input) {
            Err(error) => Err(CapabilityError::Json(error)),
            Ok(value) => CapabilityManifest::from_json(&value),
        }
    }

    /// Validate a complete manifest.
    pub fn from_json(value: &JsonValue) -> (r: Result<Self, CapabilityError>)
        ensures
            match r {
                Ok(manifest) => read_manifest(value@) == Ok::<ManifestModel, CapabilityErrorModel>(
                    manifest@,
                ),
                Err(error) => read_manifest(value@) == Err::<ManifestModel, CapabilityErrorModel>(
                    error@,
                ),
            },
    {
        let object = match expect_object(value, "manifest") {
            Err(error) => return Err(error),
            Ok(object) => object,
        };
        let actual = match required_u64(object) {
            Err(error) => return Err(error),
            Ok(version) => version,
        };
        if actual != CAPABILITY_ABI_VERSION {
            return Err(
                CapabilityError::UnsupportedAbiVersion { expected: CAPABILITY_ABI_VERSION, actual },
            );
        }
        let mut known: Vec<&str> = Vec::new();
        known.push("abi_version");
        known.push("agent");
        known.push("world");
        known.push("trace");
        known.push("task");
        known.push("json");
        known.push("time");
        assert(known@ =~= manifest_keys());
        if let Err(error) = reject_unknown_keys(object, &known, "manifest") {
            return Err(error);
        }
        let mut manifest = CapabilityManifest::empty();
        let mut k: usize = 0;
        while k < 6
            invariant
                k <= 6,
                read_modules(object@, k as nat) == Ok::<ManifestModel, CapabilityErrorModel>(
                    manifest@,
                ),
                read_modules(object@, 6) is Err ==> read_manifest(value@) == Err::<
                    ManifestModel,
                    CapabilityErrorModel,
                >(read_modules(object@, 6)->Err_0),
                read_modules(object@, 6) is Ok ==> read_manifest(value@) == read_modules(
                    object@,
                    6,
                ),
            decreases 6 - k,
        {
            let module = numbered(k);
            if let Some(value) = object.get(module.json_key()) {
                match parse_grant(module, value) {
                    Err(error) => {
                        proof {
                            lemma_modules_prefix(object@, (k + 1) as nat);
                        }
                        return Err(error);
                    },
                    Ok(grant) => manifest.set(module, grant),
                }
            }
            k = k + 1;
        }
        Ok(manifest)
    }

    /// This manifest as a value in its canonical form.
    pub fn to_json(&self) -> (r: JsonValue)
        ensures
            r@ == Json::Object(manifest_form(self@)),
    {
        let mut object = JsonObject::new().with(
            "abi_version",
            JsonValue::unsigned(self.abi_version),
        );
        object = self.add_module(object, CapabilityModule::Agent);
        object = self.add_module(object, CapabilityModule::World);
        object = self.add_module(object, CapabilityModule::Trace);
        object = self.add_module(object, CapabilityModule::Task);
        object = self.add_module(object, CapabilityModule::Json);
        object = self.add_module(object, CapabilityModule::Time);
        JsonValue::object(object)
    }

    fn add_module(&self, object: JsonObject, module: CapabilityModule) -> (r: JsonObject)
        ensures
            r@ == with_module(object@, self@, module),
    {
        match self.grant(module) {
            Some(grant) => object.with(module.json_key(), make_grant(grant)),
            None => object,
        }
    }

    /// Encode this manifest as canonical, deterministic JSON text.
    ///
    /// The text of a valid manifest parses to that manifest.
    pub fn to_json_string(&self) -> (r: String)
        ensures
            r@ == serde_to_string(Json::Object(manifest_form(self@))),
            self@.valid() ==> parsed(r@) == Ok::<ManifestModel, CapabilityErrorModel>(self@),
    {
        let value = self.to_json();
        let text = value.to_json_string();
        proof {
            if self@.valid() {
                law_manifest_reads_back(self@);
                lemma_form_is_shallow(self@);
            }
        }
        text
    }

    /// Check whether a request is authorized by this manifest.
    pub fn check(&self, request: &CapabilityRequest) -> (r: Result<(), CapabilityError>)
        ensures
            r is Ok <==> self@.authorizes(request.operation@),
            r matches Err(e) ==> e@ == denial(request.operation@),
    {
        let module = request.operation.module();
        if let Some(grant) = self.grant(module) {
            if grant.allows(&request.operation) {
                return Ok(());
            }
        }
        Err(CapabilityError::Denied { module, operation: request.operation.sort_key() })
    }
}

/// The refusal of an operation that is not granted.
pub open spec fn denial(operation: OperationModel) -> CapabilityErrorModel {
    CapabilityErrorModel::Denied { module: operation.module(), operation: operation.name() }
}

/// The modules in the order of their names.
pub open spec fn named_at(k: int) -> CapabilityModule {
    if k == 0 {
        CapabilityModule::Agent
    } else if k == 1 {
        CapabilityModule::Json
    } else if k == 2 {
        CapabilityModule::Task
    } else if k == 3 {
        CapabilityModule::Time
    } else if k == 4 {
        CapabilityModule::Trace
    } else {
        CapabilityModule::World
    }
}

fn named(k: usize) -> (r: CapabilityModule)
    requires
        k < 6,
    ensures
        r == named_at(k as int),
{
    if k == 0 {
        CapabilityModule::Agent
    } else if k == 1 {
        CapabilityModule::Json
    } else if k == 2 {
        CapabilityModule::Task
    } else if k == 3 {
        CapabilityModule::Time
    } else if k == 4 {
        CapabilityModule::Trace
    } else {
        CapabilityModule::World
    }
}

proof fn lemma_names_ascend(k: int)
    requires
        0 <= k < 5,
    ensures
        before(named_at(k).spec_name(), named_at(k + 1).spec_name()),
{
    reveal_strlit("@agent");
    reveal_strlit("@json");
    reveal_strlit("@task");
    reveal_strlit("@time");
    reveal_strlit("@trace");
    reveal_strlit("@world");
    reveal_with_fuel(before, 4);
}

proof fn lemma_names_are_sorted(i: int, j: int)
    requires
        0 <= i < j < 6,
    ensures
        before(named_at(i).spec_name(), named_at(j).spec_name()),
    decreases j - i,
{
    lemma_names_ascend(i);
    if i + 1 < j {
        lemma_names_are_sorted(i + 1, j);
        lemma_before_trans(
            named_at(i).spec_name(),
            named_at(i + 1).spec_name(),
            named_at(j).spec_name(),
        );
    }
}

proof fn lemma_grants_are_sorted(manifest: ManifestModel, k: nat)
    requires
        manifest.filed(),
        k <= 6,
    ensures
        ({
            let grants = grants_before(manifest, k);
            &&& forall|i: int|
                0 <= i < grants.len() ==> exists|m: int|
                    0 <= m < k && (#[trigger] grants[i]).module == #[trigger] named_at(m)
            &&& forall|i: int, j: int|
                0 <= i < j < grants.len() ==> before(
                    (#[trigger] grants[i]).module.spec_name(),
                    (#[trigger] grants[j]).module.spec_name(),
                )
        }),
    decreases k,
{
    if k > 0 {
        let front = grants_before(manifest, (k - 1) as nat);
        let grants = grants_before(manifest, k);
        lemma_grants_are_sorted(manifest, (k - 1) as nat);
        if let Some(grant) = manifest.get(named_at(k - 1)) {
            assert(grants == front.push(grant));
            assert(grant.module == named_at(k - 1));
            assert forall|i: int| 0 <= i < grants.len() implies exists|m: int|
                0 <= m < k && (#[trigger] grants[i]).module == #[trigger] named_at(m) by {
                if i < front.len() {
                    assert(grants[i] == front[i]);
                }
            }
            assert forall|i: int, j: int| 0 <= i < j < grants.len() implies before(
                (#[trigger] grants[i]).module.spec_name(),
                (#[trigger] grants[j]).module.spec_name(),
            ) by {
                assert(grants[i] == front[i]);
                if j < front.len() {
                    assert(grants[j] == front[j]);
                } else {
                    let m = choose|m: int|
                        0 <= m < k - 1 && front[i].module == #[trigger] named_at(m);
                    lemma_names_are_sorted(m, k - 1);
                }
            }
        }
    }
}

/// The grants of the first `k` modules, in module-name order.
pub open spec fn grants_before(manifest: ManifestModel, k: nat) -> Seq<GrantModel>
    decreases k,
{
    if k == 0 {
        Seq::empty()
    } else {
        let front = grants_before(manifest, (k - 1) as nat);
        match manifest.get(named_at(k - 1)) {
            Some(grant) => front.push(grant),
            None => front,
        }
    }
}

fn numbered(k: usize) -> (r: CapabilityModule)
    requires
        k < 6,
    ensures
        r == module_at(k as int),
{
    if k == 0 {
        CapabilityModule::Agent
    } else if k == 1 {
        CapabilityModule::World
    } else if k == 2 {
        CapabilityModule::Trace
    } else if k == 3 {
        CapabilityModule::Task
    } else if k == 4 {
        CapabilityModule::Json
    } else {
        CapabilityModule::Time
    }
}

proof fn lemma_modules_prefix(object: Map<Seq<char>, Json>, k: nat)
    requires
        k <= 6,
        read_modules(object, k) is Err,
    ensures
        read_modules(object, 6) == read_modules(object, k),
    decreases 6 - k,
{
    if k < 6 {
        lemma_modules_prefix(object, k + 1);
    }
}

/// A typed invocation submitted to a host capability provider.
#[derive(Debug, PartialEq)]
pub struct CapabilityRequest {
    /// The operation being requested, including MCP scope where applicable.
    pub operation: CapabilityOperation,
    /// Operation-specific arguments. The provider owns the schema.
    pub arguments: JsonValue,
}

impl CapabilityRequest {
    /// Construct a request with JSON arguments.
    pub fn new(operation: CapabilityOperation, arguments: JsonValue) -> (r: Self)
        ensures
            r.operation@ == operation@,
            r.arguments@ == arguments@,
    {
        CapabilityRequest { operation, arguments }
    }
}

/// A provider result crossing the capability boundary.
#[derive(Debug, PartialEq)]
pub struct CapabilityResponse {
    /// Provider-owned structured result.
    pub value: JsonValue,
}

impl CapabilityResponse {
    /// Construct a response.
    pub fn new(value: JsonValue) -> (r: Self)
        ensures
            r.value@ == value@,
    {
        CapabilityResponse { value }
    }
}

/// A host implementation of one or more capability operations.
pub trait CapabilityProvider {
    /// Execute an already-authorized request.
    fn provide(&self, request: &CapabilityRequest) -> Result<
        CapabilityResponse,
        CapabilityProviderError,
    >;
}

/// The host-side authorization gate around a capability provider.
pub struct CapabilityGate<P> {
    manifest: CapabilityManifest,
    provider: P,
}

impl<P> CapabilityGate<P> {
    /// The authority of a gate.
    pub closed spec fn authority(self) -> ManifestModel {
        self.manifest@
    }

    /// Bind one provider to one immutable manifest.
    pub fn new(manifest: CapabilityManifest, provider: P) -> (r: Self)
        ensures
            r.authority() == manifest@,
            r.held() == provider,
    {
        CapabilityGate { manifest, provider }
    }

    /// Borrow the immutable authority manifest.
    pub fn manifest(&self) -> (r: &CapabilityManifest)
        ensures
            r@ == self.authority(),
    {
        &self.manifest
    }

    /// The provider of a gate.
    pub closed spec fn held(self) -> P {
        self.provider
    }

    /// Borrow the provider.
    pub fn provider(&self) -> (r: &P)
        ensures
            *r == self.held(),
    {
        &self.provider
    }
}

/// Whether an authorized request, once the provider has settled it, is answered so.
pub open spec fn provision_settles(
    outcome: Result<CapabilityResponse, CapabilityProviderError>,
    answer: Result<CapabilityResponse, CapabilityError>,
) -> bool {
    match outcome {
        Ok(response) => answer matches Ok(given) && given.value@ == response.value@,
        Err(error) => answer matches Err(e) && e@ == CapabilityErrorModel::Provider(error@),
    }
}

/// What an authorized request is answered once the provider has settled it.
pub fn settle_provision(outcome: Result<CapabilityResponse, CapabilityProviderError>) -> (r: Result<
    CapabilityResponse,
    CapabilityError,
>)
    ensures
        provision_settles(outcome, r),
{
    match outcome {
        Ok(response) => Ok(response),
        Err(error) => Err(CapabilityError::Provider(error)),
    }
}

impl<P: CapabilityProvider> CapabilityGate<P> {
    /// Check the manifest before invoking the provider.
    ///
    /// A request that is not granted is refused; only the provider can fail one that is.
    pub fn provide(&self, request: &CapabilityRequest) -> (r: Result<
        CapabilityResponse,
        CapabilityError,
    >)
        ensures
            !self.authority().authorizes(request.operation@) ==> (r matches Err(e) && e@ == denial(
                request.operation@,
            )),
            self.authority().authorizes(request.operation@) ==> exists|
                outcome: Result<CapabilityResponse, CapabilityProviderError>,
            | #[trigger]
                call_ensures(P::provide, (&self.held(), request), outcome) && provision_settles(
                    outcome,
                    r,
                ),
    {
        if let Err(error) = self.manifest.check(request) {
            return Err(error);
        }
        let outcome = self.provider.provide(request);
        assert(call_ensures(P::provide, (&self.held(), request), outcome));
        settle_provision(outcome)
    }
}

proof fn lemma_keys_differ()
    ensures
        "abi_version"@ != "agent"@,
        "abi_version"@ != "world"@,
        "abi_version"@ != "trace"@,
        "abi_version"@ != "task"@,
        "abi_version"@ != "json"@,
        "abi_version"@ != "time"@,
        forall|a: CapabilityModule, b: CapabilityModule|
            a != b ==> #[trigger] a.key() != #[trigger] b.key(),
{
    reveal_strlit("abi_version");
    reveal_strlit("agent");
    reveal_strlit("world");
    reveal_strlit("trace");
    reveal_strlit("task");
    reveal_strlit("json");
    reveal_strlit("time");
    assert("abi_version"@.len() == 11);
    assert("agent"@.len() == 5 && "world"@.len() == 5 && "trace"@.len() == 5);
    assert("task"@.len() == 4 && "json"@.len() == 4 && "time"@.len() == 4);
    assert("agent"@[0] == 'a' && "world"@[0] == 'w' && "trace"@[0] == 't');
    assert("task"@[1] == 'a' && "json"@[1] == 's' && "time"@[1] == 'i');
}

/// A written manifest has the member of each module that has authority, and no other.
proof fn lemma_written_members(manifest: ManifestModel)
    ensures
        member(manifest_form(manifest), "abi_version"@) == Some(
            Json::Number(NumberModel::Int(manifest.abi_version as int)),
        ),
        forall|module: CapabilityModule|
            #![trigger manifest.get(module)]
            member(manifest_form(manifest), module.key()) == match manifest.get(module) {
                Some(grant) => Some(grant_form(grant.operations)),
                None => None,
            },
        forall|key: Seq<char>| #[trigger]
            manifest_form(manifest).contains_key(key) ==> listed(manifest_keys(), key),
{
    lemma_keys_differ();
    let keys = manifest_keys();
    assert(keys[0]@ == "abi_version"@);
    assert(keys[1]@ == "agent"@);
    assert(keys[2]@ == "world"@);
    assert(keys[3]@ == "trace"@);
    assert(keys[4]@ == "task"@);
    assert(keys[5]@ == "json"@);
    assert(keys[6]@ == "time"@);
    assert forall|module: CapabilityModule|
        #![trigger manifest.get(module)]
        member(manifest_form(manifest), module.key()) == match manifest.get(module) {
            Some(grant) => Some(grant_form(grant.operations)),
            None => None,
        } by {
        match module {
            CapabilityModule::Agent => {},
            CapabilityModule::World => {},
            CapabilityModule::Trace => {},
            CapabilityModule::Task => {},
            CapabilityModule::Json => {},
            CapabilityModule::Time => {},
        }
    }
}

proof fn lemma_scope_reads_back(permission: McpModel, path: Seq<char>)
    requires
        permission.named(),
    ensures
        ({
            let base = map![
                "server"@ => Json::String(permission.server),
                "operation"@ => Json::String(permission.operation.spec_name()),
            ];
            let scope = match permission.target {
                Some(target) => base.insert("target"@, Json::String(target)),
                None => base,
            };
            read_mcp(Json::Object(scope), path) == Ok::<OperationModel, CapabilityErrorModel>(
                OperationModel::Mcp(permission),
            )
        }),
{
    reveal_strlit("server");
    reveal_strlit("operation");
    reveal_strlit("target");
    assert("server"@.len() == 6 && "operation"@.len() == 9 && "target"@.len() == 6);
    assert("server"@[0] == 's' && "target"@[0] == 't');
    let base = map![
        "server"@ => Json::String(permission.server),
        "operation"@ => Json::String(permission.operation.spec_name()),
    ];
    let scope = match permission.target {
        Some(target) => base.insert("target"@, Json::String(target)),
        None => base,
    };
    let keys = scope_keys();
    assert(keys[0]@ == "server"@);
    assert(keys[1]@ == "operation"@);
    assert(keys[2]@ == "target"@);
    assert(unknown_fault(scope, keys, path + ".mcp"@) is None);
    lemma_mcpoperation_spelling(permission.operation);
    lemma_names_are_visible(permission.operation);
    match permission.target {
        Some(target) => {
            assert(permission =~= McpModel {
                server: permission.server,
                operation: permission.operation,
                target: Some(target),
            });
        },
        None => {
            assert(permission =~= McpModel {
                server: permission.server,
                operation: permission.operation,
                target: None,
            });
        },
    }
}

proof fn lemma_names_are_visible(operation: McpOperation)
    ensures
        !is_blank(operation.spec_name()),
{
    reveal_strlit("call");
    reveal_strlit("list_resources");
    reveal_strlit("read_resource");
    assert("call"@[0] == 'c');
    assert("list_resources"@[0] == 'l');
    assert("read_resource"@[0] == 'r');
}

proof fn lemma_operation_reads_back(
    module: CapabilityModule,
    operation: OperationModel,
    path: Seq<char>,
)
    requires
        operation.module() == module,
        operation.named(),
    ensures
        read_operation(module, operation_form(operation), path) == Ok::<
            OperationModel,
            CapabilityErrorModel,
        >(operation),
{
    match operation {
        OperationModel::Agent(op) => lemma_agentoperation_spelling(op),
        OperationModel::Trace(op) => lemma_traceoperation_spelling(op),
        OperationModel::Task(op) => lemma_taskoperation_spelling(op),
        OperationModel::Json(op) => lemma_jsonoperation_spelling(op),
        OperationModel::Time(op) => lemma_timeoperation_spelling(op),
        OperationModel::Mcp(permission) => {
            let base = map![
                "server"@ => Json::String(permission.server),
                "operation"@ => Json::String(permission.operation.spec_name()),
            ];
            let scope = match permission.target {
                Some(target) => base.insert("target"@, Json::String(target)),
                None => base,
            };
            let object = map!["mcp"@ => Json::Object(scope)];
            let keys: Seq<&str> = seq!["mcp"];
            assert(keys[0]@ == "mcp"@);
            assert(unknown_fault(object, keys, path) is None);
            lemma_scope_reads_back(permission, path);
        },
        _ => {
            reveal_strlit("fs.read");
            reveal_strlit("fs.write");
            reveal_strlit("exec");
            assert("fs.read"@.len() == 7 && "fs.write"@.len() == 8 && "exec"@.len() == 4);
        },
    }
}

proof fn lemma_operations_read_back(module: CapabilityModule, operations: Seq<OperationModel>)
    requires
        within(operations, module),
        forall|i: int| 0 <= i < operations.len() ==> (#[trigger] operations[i]).named(),
    ensures
        read_operations(
            module,
            operations.map_values(|operation: OperationModel| operation_form(operation)),
        ) == Ok::<Seq<OperationModel>, CapabilityErrorModel>(operations),
    decreases operations.len(),
{
    let forms = operations.map_values(|operation: OperationModel| operation_form(operation));
    if operations.len() == 0 {
        assert(operations =~= Seq::empty());
    } else {
        let front = operations.drop_last();
        lemma_operations_read_back(module, front);
        assert(forms.drop_last() =~= front.map_values(
            |operation: OperationModel| operation_form(operation),
        ));
        assert(operations[operations.len() - 1] == operations.last());
        lemma_operation_reads_back(
            module,
            operations.last(),
            module.key() + "["@ + digits((forms.len() - 1) as nat) + "]"@,
        );
        assert(operations =~= front.push(operations.last()));
    }
}

proof fn lemma_grant_reads_back(module: CapabilityModule, grant: GrantModel)
    requires
        valid_grant(grant, module),
    ensures
        read_grant(module, grant_form(grant.operations)) == Ok::<GrantModel, CapabilityErrorModel>(
            grant,
        ),
{
    lemma_operations_read_back(module, grant.operations);
    lemma_granted_ordered(module, grant.operations);
    assert(grant =~= GrantModel { module, operations: grant.operations });
}

/// A manifest that was written reads back as itself.
pub proof fn law_manifest_reads_back(manifest: ManifestModel)
    requires
        manifest.valid(),
    ensures
        read_manifest(Json::Object(manifest_form(manifest))) == Ok::<
            ManifestModel,
            CapabilityErrorModel,
        >(manifest),
{
    let object = manifest_form(manifest);
    lemma_written_members(manifest);
    assert(unknown_fault(object, manifest_keys(), "manifest"@) is None);
    reveal_with_fuel(read_modules, 7);
    lemma_member_reads_back(manifest, CapabilityModule::Agent);
    lemma_member_reads_back(manifest, CapabilityModule::World);
    lemma_member_reads_back(manifest, CapabilityModule::Trace);
    lemma_member_reads_back(manifest, CapabilityModule::Task);
    lemma_member_reads_back(manifest, CapabilityModule::Json);
    lemma_member_reads_back(manifest, CapabilityModule::Time);
    assert(read_modules(object, 6)->Ok_0 =~= manifest);
}

proof fn lemma_member_reads_back(manifest: ManifestModel, module: CapabilityModule)
    requires
        manifest.valid(),
    ensures
        match manifest.get(module) {
            Some(grant) => member(manifest_form(manifest), module.key()) == Some(
                grant_form(grant.operations),
            ) && read_grant(module, grant_form(grant.operations)) == Ok::<
                GrantModel,
                CapabilityErrorModel,
            >(grant),
            None => member(manifest_form(manifest), module.key()) is None,
        },
{
    lemma_written_members(manifest);
    if let Some(grant) = manifest.get(module) {
        assert(valid_grant(grant, module));
        lemma_grant_reads_back(module, grant);
    }
}

/// The member that the JSON reader keeps for itself is none of a manifest.
proof fn lemma_reserved_is_no_key()
    ensures
        RESERVED_MEMBER@ != "abi_version"@,
        forall|module: CapabilityModule| RESERVED_MEMBER@ != #[trigger] module.key(),
        RESERVED_MEMBER@ != "mcp"@,
        RESERVED_MEMBER@ != "server"@,
        RESERVED_MEMBER@ != "operation"@,
        RESERVED_MEMBER@ != "target"@,
{
    reveal_strlit("$serde_json::private::RawValue");
    reveal_strlit("abi_version");
    reveal_strlit("agent");
    reveal_strlit("world");
    reveal_strlit("trace");
    reveal_strlit("task");
    reveal_strlit("json");
    reveal_strlit("time");
    reveal_strlit("mcp");
    reveal_strlit("server");
    reveal_strlit("operation");
    reveal_strlit("target");
    assert(RESERVED_MEMBER@[0] == '$');
    assert("abi_version"@[0] == 'a' && "agent"@[0] == 'a' && "world"@[0] == 'w');
    assert("trace"@[0] == 't' && "task"@[0] == 't' && "json"@[0] == 'j' && "time"@[0] == 't');
    assert("mcp"@[0] == 'm' && "server"@[0] == 's' && "operation"@[0] == 'o');
    assert("target"@[0] == 't');
}

/// A written manifest nests a few values deep, and holds whole numbers only.
proof fn lemma_form_is_shallow(manifest: ManifestModel)
    ensures
        Json::Object(manifest_form(manifest)).whole_within(127),
{
    let object = manifest_form(manifest);
    lemma_keys_differ();
    lemma_reserved_is_no_key();
    assert forall|key: Seq<char>| #[trigger] object.contains_key(key) implies object[
        key
    ].whole_within(126) by {
        if let Json::Array(items) = object[key] {
            assert forall|i: int| 0 <= i < items.len() implies (#[trigger] items[i]).whole_within(
                125,
            ) by {
                lemma_operation_is_shallow(items[i]);
            }
        }
    }
}

/// Whether a value is the form of some operation.
spec fn is_form(value: Json) -> bool {
    exists|operation: OperationModel| value == #[trigger] operation_form(operation)
}

proof fn lemma_operation_is_shallow(value: Json)
    requires
        is_form(value),
    ensures
        value.whole_within(125),
{
    lemma_reserved_is_no_key();
    let operation = choose|operation: OperationModel| value == #[trigger] operation_form(operation);
    if let OperationModel::Mcp(permission) = operation {
        let base = map![
            "server"@ => Json::String(permission.server),
            "operation"@ => Json::String(permission.operation.spec_name()),
        ];
        let scope = match permission.target {
            Some(target) => base.insert("target"@, Json::String(target)),
            None => base,
        };
        assert(Json::Object(scope).whole_within(124)) by {
            assert forall|key: Seq<char>| #[trigger] scope.contains_key(key) implies scope[
                key
            ].whole_within(123) by {}
        }
    }
}

} // verus!
