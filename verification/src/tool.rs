//! Tool capability boundaries.
//!
//! A tool is an explicit host capability. The kernel owns names, schemas, ordering, and result
//! placement; the host owns authority and the actual side effect.

use crate::json::JsonValue;
use crate::model::{duplicate_all, duplicate_opt, Duplicate};
use crate::state::{AssistantToolCall, CallModel, SerializedJson, ToolCallId, Usage, UsageModel};
use crate::text::same;
use vstd::prelude::*;

verus! {

broadcast use crate::model::group_views;

/// Whether calls to a tool may overlap within one assistant message.
#[derive(Clone, Copy, Debug, Eq, PartialEq, Structural)]
pub enum ToolExecutionMode {
    /// The scheduler must await this call before starting another call in the batch.
    Sequential,
    /// The scheduler may execute this call concurrently with other parallel calls.
    Parallel,
}

impl Default for ToolExecutionMode {
    fn default() -> (r: Self)
        ensures
            r == ToolExecutionMode::Parallel,
    {
        ToolExecutionMode::Parallel
    }
}

/// An assistant-requested tool invocation.
#[derive(Clone, Debug, Eq, PartialEq)]
pub struct ToolCall {
    /// Stable call identifier.
    pub id: ToolCallId,
    /// Registered capability name.
    pub name: String,
    /// Serialized JSON arguments.
    pub arguments: SerializedJson,
}

impl View for ToolCall {
    type V = CallModel;

    open spec fn view(&self) -> CallModel {
        CallModel { id: self.id@, name: self.name@, arguments: self.arguments@ }
    }
}

impl Duplicate for ToolCall {
    fn duplicate(&self) -> (r: Self) {
        ToolCall {
            id: self.id.duplicate(),
            name: self.name.clone(),
            arguments: self.arguments.duplicate(),
        }
    }
}

impl ToolCall {
    /// The invocation that an assistant message asks for.
    pub fn requested(call: &AssistantToolCall) -> (r: ToolCall)
        ensures
            r@ == call@,
    {
        ToolCall {
            id: call.id.duplicate(),
            name: call.name.clone(),
            arguments: call.arguments.duplicate(),
        }
    }
}

/// A tool result to be inserted into model context.
#[derive(Clone, Debug, Eq, PartialEq)]
pub struct ToolResult {
    /// Call to which the result belongs.
    pub tool_call_id: ToolCallId,
    /// Serialized result content.
    pub content: String,
    /// Optional serialized host details.
    pub details: Option<SerializedJson>,
    /// Optional provider/accounting usage attached by the capability.
    pub usage: Option<Usage>,
    /// Names of capabilities added for a later model request, when an explicit
    /// host policy supports dynamic tool exposure.
    pub added_tool_names: Vec<String>,
    /// Whether this finalized result asks to stop after the current batch.
    ///
    /// The scheduler stops before another model request only when every
    /// finalized call in the batch has this flag set.
    pub terminate: bool,
    /// Whether the result represents a tool failure.
    pub is_error: bool,
}

/// Model of a [`ToolResult`].
#[verifier::ext_equal]
pub struct ToolResultModel {
    pub tool_call_id: Seq<char>,
    pub content: Seq<char>,
    pub details: Option<Seq<char>>,
    pub usage: Option<UsageModel>,
    pub added_tool_names: Seq<Seq<char>>,
    pub terminate: bool,
    pub is_error: bool,
}

impl View for ToolResult {
    type V = ToolResultModel;

    open spec fn view(&self) -> ToolResultModel {
        ToolResultModel {
            tool_call_id: self.tool_call_id@,
            content: self.content@,
            details: crate::model::opt_view(self.details),
            usage: crate::model::opt_view(self.usage),
            added_tool_names: crate::model::views(self.added_tool_names@),
            terminate: self.terminate,
            is_error: self.is_error,
        }
    }
}

impl Duplicate for ToolResult {
    fn duplicate(&self) -> (r: Self) {
        ToolResult {
            tool_call_id: self.tool_call_id.duplicate(),
            content: self.content.clone(),
            details: duplicate_opt(&self.details),
            usage: duplicate_opt(&self.usage),
            added_tool_names: duplicate_all(&self.added_tool_names),
            terminate: self.terminate,
            is_error: self.is_error,
        }
    }
}

impl ToolResultModel {
    /// The result of a call that failed with a text.
    pub open spec fn failed(tool_call_id: Seq<char>, content: Seq<char>) -> ToolResultModel {
        ToolResultModel {
            tool_call_id,
            content,
            details: None,
            usage: None,
            added_tool_names: Seq::empty(),
            terminate: false,
            is_error: true,
        }
    }
}

/// The result of a call that failed with a text.
pub fn error_tool_result(call: &ToolCall, content: String) -> (r: ToolResult)
    ensures
        r@ == ToolResultModel::failed(call@.id, content@),
{
    ToolResult {
        tool_call_id: call.id.duplicate(),
        content,
        details: None,
        usage: None,
        added_tool_names: Vec::new(),
        terminate: false,
        is_error: true,
    }
}

/// A partial update emitted during tool execution.
#[derive(Clone, Debug, Eq, PartialEq)]
pub struct ToolUpdate {
    /// Human/model-visible update content.
    pub content: String,
    /// Optional serialized host details.
    pub details: Option<SerializedJson>,
}

/// Model of a [`ToolUpdate`].
#[verifier::ext_equal]
pub struct ToolUpdateModel {
    pub content: Seq<char>,
    pub details: Option<Seq<char>>,
}

impl View for ToolUpdate {
    type V = ToolUpdateModel;

    open spec fn view(&self) -> ToolUpdateModel {
        ToolUpdateModel { content: self.content@, details: crate::model::opt_view(self.details) }
    }
}

impl Duplicate for ToolUpdate {
    fn duplicate(&self) -> (r: Self) {
        ToolUpdate { content: self.content.clone(), details: duplicate_opt(&self.details) }
    }
}

/// Prompt-facing, non-executable description of a tool.
#[derive(Clone, Debug, PartialEq)]
pub struct ToolDefinition {
    /// Stable tool name.
    pub name: String,
    /// Description supplied to the model.
    pub description: String,
    /// Raw JSON Schema-compatible value.
    pub schema: JsonValue,
    /// Scheduling mode.
    pub execution_mode: ToolExecutionMode,
}

/// Model of a [`ToolDefinition`].
#[verifier::ext_equal]
pub struct DefinitionModel {
    pub name: Seq<char>,
    pub description: Seq<char>,
    pub schema: crate::json::Json,
    pub execution_mode: ToolExecutionMode,
}

impl View for ToolDefinition {
    type V = DefinitionModel;

    open spec fn view(&self) -> DefinitionModel {
        DefinitionModel {
            name: self.name@,
            description: self.description@,
            schema: self.schema@,
            execution_mode: self.execution_mode,
        }
    }
}

impl Duplicate for ToolDefinition {
    fn duplicate(&self) -> (r: Self) {
        ToolDefinition {
            name: self.name.clone(),
            description: self.description.clone(),
            schema: self.schema.duplicate(),
            execution_mode: self.execution_mode,
        }
    }
}

/// Index of the definition with a name, or the number of definitions.
pub open spec fn tool_index(tools: Seq<DefinitionModel>, name: Seq<char>) -> int
    decreases tools.len(),
{
    if tools.len() == 0 || tools[0].name == name {
        0
    } else {
        1 + tool_index(tools.drop_first(), name)
    }
}

/// The definition with a name.
pub open spec fn find_tool(tools: Seq<DefinitionModel>, name: Seq<char>) -> Option<
    DefinitionModel,
> {
    let i = tool_index(tools, name);
    if i < tools.len() {
        Some(tools[i])
    } else {
        None
    }
}

/// Whether no name occurs twice.
pub open spec fn distinct_names(tools: Seq<DefinitionModel>) -> bool {
    forall|i: int, j: int|
        0 <= i < j < tools.len() ==> (#[trigger] tools[i]).name != (#[trigger] tools[j]).name
}

/// The definitions after one insertion: in the place of the one with the same name, else last.
pub open spec fn inserted(tools: Seq<DefinitionModel>, tool: DefinitionModel) -> Seq<
    DefinitionModel,
> {
    let i = tool_index(tools, tool.name);
    if i < tools.len() {
        tools.update(i, tool)
    } else {
        tools.push(tool)
    }
}

/// The definitions without the one of a name.
pub open spec fn removed(tools: Seq<DefinitionModel>, name: Seq<char>) -> Seq<DefinitionModel> {
    let i = tool_index(tools, name);
    if i < tools.len() {
        tools.remove(i)
    } else {
        tools
    }
}

/// What [`tool_index`] finds.
pub proof fn lemma_tool_index(tools: Seq<DefinitionModel>, name: Seq<char>)
    ensures
        0 <= tool_index(tools, name) <= tools.len(),
        tool_index(tools, name) < tools.len() ==> tools[tool_index(tools, name)].name == name,
        forall|j: int| 0 <= j < tool_index(tools, name) ==> (#[trigger] tools[j]).name != name,
    decreases tools.len(),
{
    if tools.len() > 0 && tools[0].name != name {
        lemma_tool_index(tools.drop_first(), name);
        assert forall|j: int| 0 <= j < tool_index(tools, name) implies (#[trigger] tools[j]).name
            != name by {
            if j > 0 {
                assert(tools.drop_first()[j - 1] == tools[j]);
            }
        }
    }
}

/// Inserting a tool makes it the one that its name finds, leaves what every other name finds,
/// and keeps names distinct.
pub proof fn law_insert_then_find(
    tools: Seq<DefinitionModel>,
    tool: DefinitionModel,
    other: Seq<char>,
)
    requires
        distinct_names(tools),
        other != tool.name,
    ensures
        find_tool(inserted(tools, tool), tool.name) == Some(tool),
        find_tool(inserted(tools, tool), other) == find_tool(tools, other),
        distinct_names(inserted(tools, tool)),
{
    let after = inserted(tools, tool);
    lemma_tool_index(tools, tool.name);
    lemma_tool_index(tools, other);
    lemma_tool_index(after, tool.name);
    lemma_tool_index(after, other);
    let i = tool_index(tools, tool.name);
    let at = if i < tools.len() { i } else { tools.len() as int };
    assert(after[at] == tool);
    let k = tool_index(after, tool.name);
    assert(k <= at);
    if k < at {
        assert(after[k] == tools[k]);
    }
    let j = tool_index(tools, other);
    let m = tool_index(after, other);
    if j < tools.len() {
        assert(after[j] == tools[j]);
        assert(m <= j);
        if m < j {
            assert(after[m] == tools[m]);
        }
    } else if m < after.len() {
        assert(m != at);
        assert(after[m] == tools[m]);
    }
}

/// Removing a name makes it find nothing, leaves what every other name finds, and keeps names
/// distinct.
pub proof fn law_remove_then_find(
    tools: Seq<DefinitionModel>,
    name: Seq<char>,
    other: Seq<char>,
)
    requires
        distinct_names(tools),
        other != name,
    ensures
        find_tool(removed(tools, name), name) is None,
        find_tool(removed(tools, name), other) == find_tool(tools, other),
        distinct_names(removed(tools, name)),
{
    let after = removed(tools, name);
    lemma_tool_index(tools, name);
    lemma_tool_index(tools, other);
    lemma_tool_index(after, name);
    lemma_tool_index(after, other);
    let i = tool_index(tools, name);
    if i < tools.len() {
        let m = tool_index(after, name);
        if m < after.len() {
            let source = if m < i { m } else { m + 1 };
            assert(after[m] == tools[source]);
        }
        let j = tool_index(tools, other);
        let k = tool_index(after, other);
        if j < tools.len() {
            let target = if j < i { j } else { j - 1 };
            assert(after[target] == tools[j]);
            assert(k <= target);
            let source = if k < i { k } else { k + 1 };
            assert(after[k] == tools[source]);
            assert(source >= j);
        } else if k < after.len() {
            let source = if k < i { k } else { k + 1 };
            assert(after[k] == tools[source]);
        }
        assert forall|a: int, b: int| 0 <= a < b < after.len() implies (#[trigger] after[a]).name
            != (#[trigger] after[b]).name by {
            let x = if a < i { a } else { a + 1 };
            let y = if b < i { b } else { b + 1 };
            assert(after[a] == tools[x]);
            assert(after[b] == tools[y]);
        }
    }
}

/// Ordered registry of explicit tools. No name occurs twice.
#[derive(Clone, Debug)]
pub struct ToolRegistry {
    tools: Vec<ToolDefinition>,
}

impl View for ToolRegistry {
    type V = Seq<DefinitionModel>;

    closed spec fn view(&self) -> Seq<DefinitionModel> {
        crate::model::views(self.tools@)
    }
}

impl Default for ToolRegistry {
    fn default() -> (r: Self)
        ensures
            r@ == Seq::<DefinitionModel>::empty(),
            r.wf(),
    {
        ToolRegistry { tools: Vec::new() }
    }
}

impl ToolRegistry {
    /// No name occurs twice.
    pub open spec fn wf(self) -> bool {
        distinct_names(self@)
    }

    fn position(&self, name: &str) -> (r: usize)
        ensures
            r == tool_index(self@, name@),
            r <= self.tools@.len(),
    {
        let mut i: usize = 0;
        assert(self@.skip(0) =~= self@);
        while i < self.tools.len()
            invariant
                i <= self.tools@.len(),
                self@.len() == self.tools@.len(),
                tool_index(self@, name@) == i + tool_index(self@.skip(i as int), name@),
            decreases self.tools.len() - i,
        {
            let ghost rest = self@.skip(i as int);
            assert(rest[0] == self.tools@[i as int]@);
            if same(self.tools[i].name.as_str(), name) {
                return i;
            }
            assert(rest.drop_first() =~= self@.skip(i + 1));
            i = i + 1;
        }
        i
    }

    /// Add a tool, replacing an existing tool with the same name without changing order.
    pub fn insert(&mut self, tool: ToolDefinition)
        requires
            old(self).wf(),
        ensures
            final(self)@ == inserted(old(self)@, tool@),
            final(self).wf(),
    {
        let ghost before = self@;
        let i = self.position(tool.name.as_str());
        proof {
            lemma_distinct_inserted(before, tool@);
        }
        if i < self.tools.len() {
            self.tools[i] = tool;
            assert(self@ =~= before.update(i as int, tool@));
        } else {
            self.tools.push(tool);
        }
    }

    /// Remove a named tool and return it to the caller.
    pub fn remove(&mut self, name: &str) -> (r: Option<ToolDefinition>)
        requires
            old(self).wf(),
        ensures
            final(self)@ == removed(old(self)@, name@),
            final(self).wf(),
            crate::model::opt_view(r) == find_tool(old(self)@, name@),
    {
        let ghost before = self@;
        let i = self.position(name);
        proof {
            lemma_distinct_removed(before, name@);
        }
        if i < self.tools.len() {
            let tool = self.tools.remove(i);
            assert(self@ =~= before.remove(i as int));
            Some(tool)
        } else {
            None
        }
    }

    /// Find a tool by name.
    pub fn get(&self, name: &str) -> (r: Option<&ToolDefinition>)
        ensures
            match r {
                Some(tool) => find_tool(self@, name@) == Some(tool@),
                None => find_tool(self@, name@) is None,
            },
    {
        let i = self.position(name);
        if i < self.tools.len() {
            Some(&self.tools[i])
        } else {
            None
        }
    }

    /// Return registered names in prompt/source order.
    pub fn names(&self) -> (r: Vec<String>)
        ensures
            r@.len() == self@.len(),
            forall|i: int| 0 <= i < r@.len() ==> (#[trigger] r@[i])@ == self@[i].name,
    {
        let mut out: Vec<String> = Vec::new();
        let mut i: usize = 0;
        while i < self.tools.len()
            invariant
                i <= self.tools@.len(),
                self@.len() == self.tools@.len(),
                out@.len() == i,
                forall|j: int| 0 <= j < i ==> (#[trigger] out@[j])@ == self@[j].name,
            decreases self.tools.len() - i,
        {
            out.push(self.tools[i].name.clone());
            i = i + 1;
        }
        out
    }

    /// Return prompt definitions in registry order.
    pub fn definitions(&self) -> (r: Vec<ToolDefinition>)
        ensures
            crate::model::views(r@) == self@,
    {
        duplicate_all(&self.tools)
    }

    /// Whether no capabilities are registered.
    pub fn is_empty(&self) -> (r: bool)
        ensures
            r == (self@.len() == 0),
    {
        self.tools.len() == 0
    }
}

proof fn lemma_distinct_inserted(tools: Seq<DefinitionModel>, tool: DefinitionModel)
    requires
        distinct_names(tools),
    ensures
        distinct_names(inserted(tools, tool)),
{
    let other = tool.name.push('a');
    assert(other.len() != tool.name.len());
    law_insert_then_find(tools, tool, other);
}

proof fn lemma_distinct_removed(tools: Seq<DefinitionModel>, name: Seq<char>)
    requires
        distinct_names(tools),
    ensures
        distinct_names(removed(tools, name)),
{
    let other = name.push('a');
    assert(other.len() != name.len());
    law_remove_then_find(tools, name, other);
}

} // verus!
