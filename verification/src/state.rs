//! Canonical agent and run state.
//!
//! State is split into durable conversation data and transient execution data. A terminal
//! run clears `partial_response` and `pending_tool_calls` before the owning agent returns
//! to [`AgentPhase::Idle`].

use crate::decimal::decimal_add;
use crate::event::{AgentEvent, AgentEventKind, EventKindModel, EventModel, EventSequence};
use crate::model::{duplicate_all, duplicate_opt, Duplicate};
use crate::text::{push_number, same};
use vstd::prelude::*;

verus! {

broadcast use crate::model::group_views;

/// A stable identifier for an agent conversation message.
#[derive(Clone, Copy, Debug, Eq, Ord, PartialEq, PartialOrd, Hash, Structural)]
pub struct MessageId(pub u64);

/// A stable identifier for one agent execution.
#[derive(Clone, Copy, Debug, Eq, Ord, PartialEq, PartialOrd, Hash, Structural)]
pub struct RunId(pub u64);

/// A stable identifier for one model turn.
#[derive(Clone, Copy, Debug, Eq, Ord, PartialEq, PartialOrd, Hash, Structural)]
pub struct TurnId(pub u64);

impl RunId {
    /// Text of a run identifier.
    pub open spec fn spec_text(self) -> Seq<char> {
        "run-"@ + crate::text::digits(self.0 as nat)
    }

    /// Text of this run identifier, as diagnostics print it.
    pub fn text(self) -> (r: String)
        ensures
            r@ == self.spec_text(),
    {
        let mut out = String::new();
        out.push_str("run-");
        push_number(&mut out, self.0);
        assert(out@ =~= self.spec_text());
        out
    }
}

/// A provider-supplied identifier for one assistant-requested tool invocation.
///
/// Unlike run and message counters, this remains textual so provider call identifiers
/// survive model context and result correlation unchanged. It is never empty.
#[derive(Debug, Eq, Ord, PartialEq, PartialOrd, Hash)]
pub struct ToolCallId(String);

/// Error returned when a provider omits the required tool-call identifier.
#[derive(Clone, Copy, Debug, Eq, PartialEq, Structural)]
pub struct ToolCallIdError;

impl ToolCallIdError {
    /// Diagnostic text.
    pub fn message(&self) -> (r: String)
        ensures
            r@ == "tool-call ID cannot be empty"@,
    {
        "tool-call ID cannot be empty".to_owned()
    }
}

impl View for ToolCallId {
    type V = Seq<char>;

    closed spec fn view(&self) -> Seq<char> {
        self.0@
    }
}

impl ToolCallId {
    #[verifier::type_invariant]
    spec fn non_empty(self) -> bool {
        self.0@.len() > 0
    }

    /// Construct a non-empty provider tool-call identifier.
    pub fn new(value: String) -> (r: Result<Self, ToolCallIdError>)
        ensures
            r is Ok <==> value@.len() > 0,
            r matches Ok(id) ==> id@ == value@,
    {
        if value.as_str().is_empty() {
            return Err(ToolCallIdError);
        }
        Ok(ToolCallId(value))
    }

    /// Borrow the provider's exact tool-call identifier.
    pub fn as_str(&self) -> (r: &str)
        ensures
            r@ == self@,
            r@.len() > 0,
    {
        proof {
            use_type_invariant(self);
        }
        self.0.as_str()
    }

    /// Whether two identifiers are the same text.
    pub fn equals(&self, other: &ToolCallId) -> (r: bool)
        ensures
            r == (self@ == other@),
    {
        same(self.as_str(), other.as_str())
    }
}

impl Clone for ToolCallId {
    fn clone(&self) -> (r: Self)
        ensures
            r@ == self@,
    {
        proof {
            use_type_invariant(self);
        }
        ToolCallId(self.0.clone())
    }
}

impl Duplicate for ToolCallId {
    fn duplicate(&self) -> (r: Self) {
        self.clone()
    }
}

/// The model's reasoning budget selection.
#[derive(Clone, Copy, Debug, Eq, PartialEq, Structural)]
pub enum ThinkingLevel {
    /// Ask the provider for its default reasoning behavior.
    Default,
    /// Disable additional reasoning where the provider supports it.
    Off,
    /// Request the smallest explicit reasoning budget.
    Minimal,
    /// Request a low reasoning budget.
    Low,
    /// Request a medium reasoning budget.
    Medium,
    /// Request a high reasoning budget.
    High,
    /// Request an extra-high reasoning budget.
    XHigh,
    /// Request the maximum reasoning budget.
    Max,
}

impl Default for ThinkingLevel {
    fn default() -> (r: Self)
        ensures
            r == ThinkingLevel::Default,
    {
        ThinkingLevel::Default
    }
}

/// Provider-independent model identity.
#[derive(Clone, Debug, Default, Eq, PartialEq)]
pub struct ModelDescriptor {
    /// Provider name chosen by the host.
    pub provider: String,
    /// Provider model name.
    pub model: String,
    /// Optional revision or snapshot pin.
    pub revision: Option<String>,
}

/// Model of a [`ModelDescriptor`].
#[verifier::ext_equal]
pub struct ModelDescriptorModel {
    pub provider: Seq<char>,
    pub model: Seq<char>,
    pub revision: Option<Seq<char>>,
}

impl View for ModelDescriptor {
    type V = ModelDescriptorModel;

    open spec fn view(&self) -> ModelDescriptorModel {
        ModelDescriptorModel {
            provider: self.provider@,
            model: self.model@,
            revision: crate::model::opt_view(self.revision),
        }
    }
}

impl Duplicate for ModelDescriptor {
    fn duplicate(&self) -> (r: Self) {
        ModelDescriptor {
            provider: self.provider.clone(),
            model: self.model.clone(),
            revision: duplicate_opt(&self.revision),
        }
    }
}

/// A serialized JSON value at an integration boundary.
///
/// The exact text is preserved in state and validated only at the tool invocation boundary.
#[derive(Clone, Debug, Default, Eq, PartialEq)]
pub struct SerializedJson(pub String);

impl View for SerializedJson {
    type V = Seq<char>;

    open spec fn view(&self) -> Seq<char> {
        self.0@
    }
}

impl SerializedJson {
    /// Construct a serialized JSON boundary value without implying validation.
    pub fn new(value: String) -> (r: Self)
        ensures
            r@ == value@,
    {
        SerializedJson(value)
    }

    /// Borrow the serialized representation.
    pub fn as_str(&self) -> (r: &str)
        ensures
            r@ == self@,
    {
        self.0.as_str()
    }
}

impl Duplicate for SerializedJson {
    fn duplicate(&self) -> (r: Self) {
        SerializedJson(self.0.clone())
    }
}

/// A tool call embedded in an assistant message.
#[derive(Clone, Debug, Eq, PartialEq)]
pub struct AssistantToolCall {
    /// Stable call identifier.
    pub id: ToolCallId,
    /// Registered tool name.
    pub name: String,
    /// Serialized JSON arguments.
    pub arguments: SerializedJson,
}

/// Model of an [`AssistantToolCall`].
#[verifier::ext_equal]
pub struct CallModel {
    pub id: Seq<char>,
    pub name: Seq<char>,
    pub arguments: Seq<char>,
}

impl View for AssistantToolCall {
    type V = CallModel;

    open spec fn view(&self) -> CallModel {
        CallModel { id: self.id@, name: self.name@, arguments: self.arguments@ }
    }
}

impl Duplicate for AssistantToolCall {
    fn duplicate(&self) -> (r: Self) {
        AssistantToolCall {
            id: self.id.duplicate(),
            name: self.name.clone(),
            arguments: self.arguments.duplicate(),
        }
    }
}

/// Provider usage counters.
#[derive(Clone, Debug, Eq, PartialEq)]
pub struct Usage {
    /// Input tokens, when reported by the provider.
    pub input_tokens: Option<u64>,
    /// Output tokens, when reported by the provider.
    pub output_tokens: Option<u64>,
    /// Reasoning tokens, when reported by the provider.
    pub reasoning_tokens: Option<u64>,
    /// Input tokens served from a provider cache, when reported.
    pub cache_read_tokens: Option<u64>,
    /// Input tokens written to a provider cache, when reported.
    pub cache_write_tokens: Option<u64>,
    /// Exact provider-reported monetary value for this response, when reported.
    ///
    /// This is the provider's decimal text, so a host can display or add reported prices
    /// without binary floating-point rounding. No value is derived from token counts.
    pub cost: Option<String>,
}

/// Model of a [`Usage`].
#[verifier::ext_equal]
pub struct UsageModel {
    pub input_tokens: Option<u64>,
    pub output_tokens: Option<u64>,
    pub reasoning_tokens: Option<u64>,
    pub cache_read_tokens: Option<u64>,
    pub cache_write_tokens: Option<u64>,
    pub cost: Option<Seq<char>>,
}

impl View for Usage {
    type V = UsageModel;

    open spec fn view(&self) -> UsageModel {
        UsageModel {
            input_tokens: self.input_tokens,
            output_tokens: self.output_tokens,
            reasoning_tokens: self.reasoning_tokens,
            cache_read_tokens: self.cache_read_tokens,
            cache_write_tokens: self.cache_write_tokens,
            cost: crate::model::opt_view(self.cost),
        }
    }
}

impl Duplicate for Usage {
    fn duplicate(&self) -> (r: Self) {
        Usage {
            input_tokens: self.input_tokens,
            output_tokens: self.output_tokens,
            reasoning_tokens: self.reasoning_tokens,
            cache_read_tokens: self.cache_read_tokens,
            cache_write_tokens: self.cache_write_tokens,
            cost: duplicate_opt(&self.cost),
        }
    }
}

/// The later value where it is known, else the earlier one.
pub open spec fn latest<T>(earlier: Option<T>, later: Option<T>) -> Option<T> {
    if later is Some {
        later
    } else {
        earlier
    }
}

impl UsageModel {
    /// A report of nothing.
    pub open spec fn unreported() -> UsageModel {
        UsageModel {
            input_tokens: None,
            output_tokens: None,
            reasoning_tokens: None,
            cache_read_tokens: None,
            cache_write_tokens: None,
            cost: None,
        }
    }

    /// Field by field, the update where it reports something.
    pub open spec fn merged(self, update: UsageModel) -> UsageModel {
        UsageModel {
            input_tokens: latest(self.input_tokens, update.input_tokens),
            output_tokens: latest(self.output_tokens, update.output_tokens),
            reasoning_tokens: latest(self.reasoning_tokens, update.reasoning_tokens),
            cache_read_tokens: latest(self.cache_read_tokens, update.cache_read_tokens),
            cache_write_tokens: latest(self.cache_write_tokens, update.cache_write_tokens),
            cost: latest(self.cost, update.cost),
        }
    }

    /// Field by field, the sum of two reports.
    pub open spec fn plus(self, report: UsageModel) -> UsageModel {
        UsageModel {
            input_tokens: plus_tokens(self.input_tokens, report.input_tokens),
            output_tokens: plus_tokens(self.output_tokens, report.output_tokens),
            reasoning_tokens: plus_tokens(self.reasoning_tokens, report.reasoning_tokens),
            cache_read_tokens: plus_tokens(self.cache_read_tokens, report.cache_read_tokens),
            cache_write_tokens: plus_tokens(self.cache_write_tokens, report.cache_write_tokens),
            cost: plus_cost(self.cost, report.cost),
        }
    }
}

impl Default for Usage {
    fn default() -> (r: Self)
        ensures
            r@ == UsageModel::unreported(),
    {
        Usage {
            input_tokens: None,
            output_tokens: None,
            reasoning_tokens: None,
            cache_read_tokens: None,
            cache_write_tokens: None,
            cost: None,
        }
    }
}

impl Usage {
    /// Whether this usage value contains at least one provider-reported field.
    pub fn is_reported(&self) -> (r: bool)
        ensures
            r == (self@ != UsageModel::unreported()),
    {
        let r = self.input_tokens.is_some() || self.output_tokens.is_some()
            || self.reasoning_tokens.is_some() || self.cache_read_tokens.is_some()
            || self.cache_write_tokens.is_some() || self.cost.is_some();
        proof {
            if !r {
                assert(self@ =~= UsageModel::unreported());
            }
        }
        r
    }

    /// Merge a later provider update into this value without turning unknown fields into zero.
    pub fn merge(&mut self, update: Self)
        ensures
            final(self)@ == old(self)@.merged(update@),
    {
        if update.input_tokens.is_some() {
            self.input_tokens = update.input_tokens;
        }
        if update.output_tokens.is_some() {
            self.output_tokens = update.output_tokens;
        }
        if update.reasoning_tokens.is_some() {
            self.reasoning_tokens = update.reasoning_tokens;
        }
        if update.cache_read_tokens.is_some() {
            self.cache_read_tokens = update.cache_read_tokens;
        }
        if update.cache_write_tokens.is_some() {
            self.cache_write_tokens = update.cache_write_tokens;
        }
        if update.cost.is_some() {
            self.cost = update.cost;
        }
    }
}

/// Accounting attached to one settled model turn.
#[derive(Clone, Debug, Eq, PartialEq)]
pub struct ModelTurnAccounting {
    /// Run that owns this model turn.
    pub run_id: RunId,
    /// Turn within the run.
    pub turn_id: TurnId,
    /// Model requested for this turn, when configured.
    pub model: Option<ModelDescriptor>,
    /// Provider-reported token and monetary fields.
    pub usage: Usage,
}

/// Model of a [`ModelTurnAccounting`].
#[verifier::ext_equal]
pub struct TurnAccountingModel {
    pub run_id: RunId,
    pub turn_id: TurnId,
    pub model: Option<ModelDescriptorModel>,
    pub usage: UsageModel,
}

impl View for ModelTurnAccounting {
    type V = TurnAccountingModel;

    open spec fn view(&self) -> TurnAccountingModel {
        TurnAccountingModel {
            run_id: self.run_id,
            turn_id: self.turn_id,
            model: crate::model::opt_view(self.model),
            usage: self.usage@,
        }
    }
}

impl Duplicate for ModelTurnAccounting {
    fn duplicate(&self) -> (r: Self) {
        ModelTurnAccounting {
            run_id: self.run_id,
            turn_id: self.turn_id,
            model: duplicate_opt(&self.model),
            usage: self.usage.duplicate(),
        }
    }
}

/// Retained per-turn and aggregate model accounting for an agent.
#[derive(Clone, Debug, Eq, PartialEq)]
pub struct ModelAccountingSnapshot {
    /// One record for each model turn that supplied a usage update.
    pub turns: Vec<ModelTurnAccounting>,
    /// Field-wise aggregate of known provider reports. A field remains `None` until at least
    /// one turn reports it; reported zero remains `Some(0)`.
    pub aggregate: Usage,
}

/// Model of a [`ModelAccountingSnapshot`].
#[verifier::ext_equal]
pub struct AccountingModel {
    pub turns: Seq<TurnAccountingModel>,
    pub aggregate: UsageModel,
}

impl View for ModelAccountingSnapshot {
    type V = AccountingModel;

    open spec fn view(&self) -> AccountingModel {
        AccountingModel { turns: crate::model::views(self.turns@), aggregate: self.aggregate@ }
    }
}

impl Duplicate for ModelAccountingSnapshot {
    fn duplicate(&self) -> (r: Self) {
        ModelAccountingSnapshot {
            turns: duplicate_all(&self.turns),
            aggregate: self.aggregate.duplicate(),
        }
    }
}

impl AccountingModel {
    /// No turn recorded.
    pub open spec fn empty() -> AccountingModel {
        AccountingModel { turns: Seq::empty(), aggregate: UsageModel::unreported() }
    }

    /// One more turn recorded.
    pub open spec fn recorded(self, turn: TurnAccountingModel) -> AccountingModel {
        AccountingModel {
            turns: self.turns.push(turn),
            aggregate: self.aggregate.plus(turn.usage),
        }
    }
}

/// The sum of the reports of a sequence of turns.
pub open spec fn total_usage(turns: Seq<TurnAccountingModel>) -> UsageModel
    decreases turns.len(),
{
    if turns.len() == 0 {
        UsageModel::unreported()
    } else {
        total_usage(turns.drop_last()).plus(turns.last().usage)
    }
}

/// A field of the aggregate is unreported exactly as long as no turn reports it; a reported zero
/// is a report.
pub proof fn law_unreported_fields_stay_unreported(turns: Seq<TurnAccountingModel>)
    ensures
        total_usage(turns).input_tokens is None <==> forall|i: int|
            0 <= i < turns.len() ==> (#[trigger] turns[i]).usage.input_tokens is None,
        total_usage(turns).output_tokens is None <==> forall|i: int|
            0 <= i < turns.len() ==> (#[trigger] turns[i]).usage.output_tokens is None,
        total_usage(turns).reasoning_tokens is None <==> forall|i: int|
            0 <= i < turns.len() ==> (#[trigger] turns[i]).usage.reasoning_tokens is None,
        total_usage(turns).cache_read_tokens is None <==> forall|i: int|
            0 <= i < turns.len() ==> (#[trigger] turns[i]).usage.cache_read_tokens is None,
        total_usage(turns).cache_write_tokens is None <==> forall|i: int|
            0 <= i < turns.len() ==> (#[trigger] turns[i]).usage.cache_write_tokens is None,
        total_usage(turns).cost is None <==> forall|i: int|
            0 <= i < turns.len() ==> (#[trigger] turns[i]).usage.cost is None,
    decreases turns.len(),
{
    if turns.len() > 0 {
        let before = turns.drop_last();
        law_unreported_fields_stay_unreported(before);
        assert(turns == before.push(turns.last()));
        assert(turns[turns.len() - 1] == turns.last());
        assert forall|i: int| 0 <= i < before.len() implies #[trigger] before[i] == turns[i] by {}
    }
}

impl AccountingModel {
    /// The aggregate is the sum of the recorded turns.
    pub open spec fn balanced(self) -> bool {
        self.aggregate == total_usage(self.turns)
    }
}

impl Default for ModelAccountingSnapshot {
    fn default() -> (r: Self)
        ensures
            r@ == AccountingModel::empty(),
            r@.balanced(),
    {
        let r = ModelAccountingSnapshot { turns: Vec::new(), aggregate: Usage::default() };
        assert(r@.turns =~= Seq::<TurnAccountingModel>::empty());
        r
    }
}

impl Usage {
    /// Add one report, field by field.
    pub fn accumulate(&mut self, report: &Usage)
        ensures
            final(self)@ == old(self)@.plus(report@),
    {
        let ghost before = self@;
        add_usage(&mut self.input_tokens, report.input_tokens);
        add_usage(&mut self.output_tokens, report.output_tokens);
        add_usage(&mut self.reasoning_tokens, report.reasoning_tokens);
        add_usage(&mut self.cache_read_tokens, report.cache_read_tokens);
        add_usage(&mut self.cache_write_tokens, report.cache_write_tokens);
        self.cost = add_cost(&self.cost, &report.cost);
        assert(self@ =~= before.plus(report@));
    }
}

/// Add one price to a total.
pub fn add_cost(total: &Option<String>, value: &Option<String>) -> (r: Option<String>)
    ensures
        crate::model::opt_view(r) == plus_cost(
            crate::model::opt_view(*total),
            crate::model::opt_view(*value),
        ),
{
    match (total, value) {
        (Some(previous), Some(cost)) => match decimal_add(previous.as_str(), cost.as_str()) {
            Some(sum) => Some(sum),
            None => Some(previous.clone()),
        },
        (None, Some(cost)) => Some(cost.clone()),
        (previous, None) => duplicate_opt(previous),
    }
}

impl ModelAccountingSnapshot {
    /// Record one settled model-turn report and update its aggregate view.
    pub fn record(&mut self, accounting: ModelTurnAccounting)
        ensures
            final(self)@ == old(self)@.recorded(accounting@),
            old(self)@.balanced() ==> final(self)@.balanced(),
    {
        let ghost before = self@;
        self.aggregate.accumulate(&accounting.usage);
        self.turns.push(accounting);
        proof {
            let after = self@;
            assert(after.aggregate =~= before.aggregate.plus(accounting@.usage));
            assert(after.turns =~= before.turns.push(accounting@));
            assert(after.turns.drop_last() =~= before.turns);
        }
    }
}

/// Saturating sum of two machine integers.
pub open spec fn saturating_sum(a: u64, b: u64) -> u64 {
    if a + b > u64::MAX {
        u64::MAX
    } else {
        (a + b) as u64
    }
}

/// A token total after one more report. An absent report changes nothing.
pub open spec fn plus_tokens(total: Option<u64>, value: Option<u64>) -> Option<u64> {
    match value {
        Some(v) => Some(
            saturating_sum(
                match total {
                    Some(t) => t,
                    None => 0,
                },
                v,
            ),
        ),
        None => total,
    }
}

/// A price total after one more report.
///
/// An absent report changes nothing, and neither does one that cannot be added because
/// one of the two texts is no decimal number.
pub open spec fn plus_cost(total: Option<Seq<char>>, value: Option<Seq<char>>) -> Option<
    Seq<char>,
> {
    match (total, value) {
        (Some(t), Some(v)) => match crate::decimal::decimal_sum(t, v) {
            Some(sum) => Some(sum),
            None => Some(t),
        },
        (None, Some(v)) => Some(v),
        (t, None) => t,
    }
}

fn add_usage(total: &mut Option<u64>, value: Option<u64>)
    ensures
        *final(total) == plus_tokens(*old(total), value),
{
    if let Some(value) = value {
        let current: u64 = match *total {
            Some(t) => t,
            None => 0,
        };
        *total = Some(current.saturating_add(value));
    }
}

/// Why model generation stopped.
#[derive(Clone, Copy, Debug, Eq, PartialEq, Structural)]
pub enum StopReason {
    /// The provider produced a normal final response.
    EndTurn,
    /// The provider requested tool execution.
    ToolUse,
    /// The provider stopped because the output token limit was reached.
    Length,
    /// The provider aborted generation independently of host cancellation.
    Aborted,
    /// The host cancelled the run.
    Cancelled,
    /// The provider or host failed.
    Error,
}

/// A message retained in the canonical conversation history.
#[derive(Clone, Debug, Eq, PartialEq)]
pub enum Message {
    /// Host-provided user input.
    User { id: MessageId, content: String },
    /// Provider response, including any textual partial/final content.
    Assistant {
        id: MessageId,
        content: String,
        tool_calls: Vec<AssistantToolCall>,
        /// Terminal model stop reason, when this is the finalized assistant message.
        /// `None` is used for a partial streaming snapshot.
        stop_reason: Option<StopReason>,
        /// Provider/model diagnostic for an error or aborted response.
        error_message: Option<String>,
    },
    /// Result injected after a tool invocation.
    ToolResult {
        id: MessageId,
        tool_call_id: ToolCallId,
        tool_name: String,
        content: String,
        details: Option<SerializedJson>,
        usage: Option<Usage>,
        added_tool_names: Vec<String>,
        is_error: bool,
    },
}

/// Model of a [`Message`].
#[verifier::ext_equal]
pub enum MessageModel {
    User { id: MessageId, content: Seq<char> },
    Assistant {
        id: MessageId,
        content: Seq<char>,
        tool_calls: Seq<CallModel>,
        stop_reason: Option<StopReason>,
        error_message: Option<Seq<char>>,
    },
    ToolResult {
        id: MessageId,
        tool_call_id: Seq<char>,
        tool_name: Seq<char>,
        content: Seq<char>,
        details: Option<Seq<char>>,
        usage: Option<UsageModel>,
        added_tool_names: Seq<Seq<char>>,
        is_error: bool,
    },
}

impl MessageModel {
    /// Identifier of a message.
    pub open spec fn message_id(self) -> MessageId {
        match self {
            MessageModel::User { id, .. } => id,
            MessageModel::Assistant { id, .. } => id,
            MessageModel::ToolResult { id, .. } => id,
        }
    }
}

impl View for Message {
    type V = MessageModel;

    open spec fn view(&self) -> MessageModel {
        match *self {
            Message::User { id, content } => MessageModel::User { id, content: content@ },
            Message::Assistant { id, content, tool_calls, stop_reason, error_message } => {
                MessageModel::Assistant {
                    id,
                    content: content@,
                    tool_calls: crate::model::views(tool_calls@),
                    stop_reason,
                    error_message: crate::model::opt_view(error_message),
                }
            },
            Message::ToolResult {
                id,
                tool_call_id,
                tool_name,
                content,
                details,
                usage,
                added_tool_names,
                is_error,
            } => MessageModel::ToolResult {
                id,
                tool_call_id: tool_call_id@,
                tool_name: tool_name@,
                content: content@,
                details: crate::model::opt_view(details),
                usage: crate::model::opt_view(usage),
                added_tool_names: crate::model::views(added_tool_names@),
                is_error,
            },
        }
    }
}

impl Duplicate for Message {
    fn duplicate(&self) -> (r: Self) {
        match self {
            Message::User { id, content } => Message::User { id: *id, content: content.clone() },
            Message::Assistant { id, content, tool_calls, stop_reason, error_message } => {
                Message::Assistant {
                    id: *id,
                    content: content.clone(),
                    tool_calls: duplicate_all(tool_calls),
                    stop_reason: *stop_reason,
                    error_message: duplicate_opt(error_message),
                }
            },
            Message::ToolResult {
                id,
                tool_call_id,
                tool_name,
                content,
                details,
                usage,
                added_tool_names,
                is_error,
            } => Message::ToolResult {
                id: *id,
                tool_call_id: tool_call_id.duplicate(),
                tool_name: tool_name.clone(),
                content: content.clone(),
                details: duplicate_opt(details),
                usage: duplicate_opt(usage),
                added_tool_names: duplicate_all(added_tool_names),
                is_error: *is_error,
            },
        }
    }
}

/// Identifier of a message.
pub fn message_id(message: &Message) -> (r: MessageId)
    ensures
        r == message@.message_id(),
{
    match message {
        Message::User { id, .. } => *id,
        Message::Assistant { id, .. } => *id,
        Message::ToolResult { id, .. } => *id,
    }
}

/// The externally observable agent ownership phase.
#[derive(Clone, Copy, Debug, Eq, PartialEq, Structural)]
pub enum AgentPhase {
    /// No run currently owns the agent.
    Idle,
    /// A run is processing model/tool work.
    Running(RunId),
    /// Cancellation was requested and settlement is pending.
    Cancelling(RunId),
}

/// The run lifecycle. Terminal variants are immutable outcomes.
#[derive(Clone, Copy, Debug, Eq, PartialEq, Structural)]
pub enum RunPhase {
    /// The run handle exists but has not emitted its first turn event.
    Created,
    /// The run is processing a turn.
    Running,
    /// The run has stopped accepting work and is settling observers.
    Settling,
    /// The run completed normally.
    Succeeded,
    /// The run completed with a runtime error.
    Failed,
    /// The run completed because cancellation won settlement.
    Cancelled,
}

impl RunPhase {
    /// Whether no further run transition is legal.
    pub open spec fn terminal(self) -> bool {
        self == RunPhase::Succeeded || self == RunPhase::Failed || self == RunPhase::Cancelled
    }

    /// Whether no further run transition is legal.
    pub fn is_terminal(self) -> (r: bool)
        ensures
            r == self.terminal(),
    {
        matches!(self, RunPhase::Succeeded | RunPhase::Failed | RunPhase::Cancelled)
    }

    /// Name of a phase, as diagnostics print it.
    pub open spec fn spec_name(self) -> Seq<char> {
        match self {
            RunPhase::Created => "created"@,
            RunPhase::Running => "running"@,
            RunPhase::Settling => "settling"@,
            RunPhase::Succeeded => "succeeded"@,
            RunPhase::Failed => "failed"@,
            RunPhase::Cancelled => "cancelled"@,
        }
    }
}

/// Name of a phase, as diagnostics print it.
pub fn phase_name(phase: RunPhase) -> (r: &'static str)
    ensures
        r@ == phase.spec_name(),
{
    match phase {
        RunPhase::Created => "created",
        RunPhase::Running => "running",
        RunPhase::Settling => "settling",
        RunPhase::Succeeded => "succeeded",
        RunPhase::Failed => "failed",
        RunPhase::Cancelled => "cancelled",
    }
}

/// A set of tool-call identifiers. None occurs twice.
#[derive(Debug, Eq, PartialEq)]
pub struct ToolCallSet {
    ids: Vec<ToolCallId>,
}

impl View for ToolCallSet {
    type V = Set<Seq<char>>;

    closed spec fn view(&self) -> Set<Seq<char>> {
        Set::new(|id: Seq<char>| crate::model::views(self.ids@).contains(id))
    }
}

impl ToolCallSet {
    #[verifier::type_invariant]
    spec fn distinct(self) -> bool {
        crate::model::views(self.ids@).no_duplicates()
    }

    /// A set without identifiers.
    pub fn new() -> (r: Self)
        ensures
            r@ == Set::<Seq<char>>::empty(),
    {
        let r = ToolCallSet { ids: Vec::new() };
        assert(r@ =~= Set::<Seq<char>>::empty());
        r
    }

    fn position(&self, id: &ToolCallId) -> (r: Option<usize>)
        ensures
            match r {
                Some(i) => i < self.ids@.len() && self.ids@[i as int]@ == id@ && self@.contains(id@),
                None => !self@.contains(id@),
            },
    {
        let mut i: usize = 0;
        while i < self.ids.len()
            invariant
                i <= self.ids@.len(),
                forall|j: int| 0 <= j < i ==> (#[trigger] self.ids@[j])@ != id@,
            decreases self.ids.len() - i,
        {
            if self.ids[i].equals(id) {
                assert(crate::model::views(self.ids@)[i as int] == id@);
                return Some(i);
            }
            i = i + 1;
        }
        assert forall|j: int| 0 <= j < self.ids@.len() implies #[trigger] crate::model::views(
            self.ids@,
        )[j] != id@ by {
            assert(crate::model::views(self.ids@)[j] == self.ids@[j]@);
        }
        None
    }

    /// Whether an identifier is in the set.
    pub fn contains(&self, id: &ToolCallId) -> (r: bool)
        ensures
            r == self@.contains(id@),
    {
        self.position(id).is_some()
    }

    /// Add an identifier.
    pub fn insert(&mut self, id: ToolCallId)
        ensures
            final(self)@ == old(self)@.insert(id@),
    {
        proof {
            use_type_invariant(&*self);
        }
        if self.contains(&id) {
            assert(self@.insert(id@) =~= self@);
            return;
        }
        let ghost old_ids = crate::model::views(self.ids@);
        let ghost old_set = self@;
        let mut ids: Vec<ToolCallId> = Vec::new();
        std::mem::swap(&mut ids, &mut self.ids);
        ids.push(id);
        proof {
            let new_ids = crate::model::views(ids@);
            assert(new_ids =~= old_ids.push(id@));
            assert(!old_ids.contains(id@));
            assert forall|other: Seq<char>| new_ids.contains(other) <==> (old_ids.contains(other)
                || other == id@) by {
                if old_ids.contains(other) {
                    let i = choose|i: int| 0 <= i < old_ids.len() && old_ids[i] == other;
                    assert(new_ids[i] == other);
                }
                if other == id@ {
                    assert(new_ids[old_ids.len() as int] == other);
                }
            }
        }
        self.ids = ids;
        assert(self@ =~= old_set.insert(id@));
    }

    /// Remove an identifier.
    pub fn remove(&mut self, id: &ToolCallId)
        ensures
            final(self)@ == old(self)@.remove(id@),
    {
        proof {
            use_type_invariant(&*self);
        }
        let ghost old_ids = crate::model::views(self.ids@);
        let ghost old_set = self@;
        match self.position(id) {
            None => {
                assert(self@.remove(id@) =~= self@);
            },
            Some(i) => {
                let mut ids: Vec<ToolCallId> = Vec::new();
                std::mem::swap(&mut ids, &mut self.ids);
                let _removed = ids.remove(i);
                proof {
                    let new_ids = crate::model::views(ids@);
                    assert(new_ids =~= old_ids.remove(i as int));
                    assert(old_ids[i as int] == id@);
                    assert forall|other: Seq<char>| new_ids.contains(other) <==> (
                    old_ids.contains(other) && other != id@) by {
                        if new_ids.contains(other) {
                            let j = choose|j: int| 0 <= j < new_ids.len() && new_ids[j] == other;
                            let source = if j < i { j } else { j + 1 };
                            assert(old_ids[source] == other);
                        }
                        if old_ids.contains(other) && other != id@ {
                            let j = choose|j: int| 0 <= j < old_ids.len() && old_ids[j] == other;
                            let target = if j < i { j } else { j - 1 };
                            assert(new_ids[target] == other);
                        }
                    }
                    assert forall|a: int, b: int|
                        0 <= a < new_ids.len() && 0 <= b < new_ids.len() && a != b implies
                        new_ids[a] != new_ids[b] by {
                        let x = if a < i { a } else { a + 1 };
                        let y = if b < i { b } else { b + 1 };
                        assert(new_ids[a] == old_ids[x]);
                        assert(new_ids[b] == old_ids[y]);
                    }
                }
                self.ids = ids;
                assert(self@ =~= old_set.remove(id@));
            },
        }
    }

    /// Remove every identifier.
    pub fn clear(&mut self)
        ensures
            final(self)@ == Set::<Seq<char>>::empty(),
    {
        self.ids = Vec::new();
        assert(self@ =~= Set::<Seq<char>>::empty());
    }

    /// Number of identifiers.
    pub fn len(&self) -> (r: usize)
        ensures
            r == self@.len(),
            self@.finite(),
    {
        proof {
            use_type_invariant(self);
            let ids = crate::model::views(self.ids@);
            ids.unique_seq_to_set();
            assert(self@ =~= ids.to_set());
        }
        self.ids.len()
    }

    /// Whether the set has no identifier.
    pub fn is_empty(&self) -> (r: bool)
        ensures
            r == (self@ == Set::<Seq<char>>::empty()),
    {
        let r = self.ids.len() == 0;
        proof {
            if r {
                assert(self@ =~= Set::<Seq<char>>::empty());
            } else {
                let ids = crate::model::views(self.ids@);
                assert(ids.contains(ids[0]));
                assert(self@.contains(ids[0]));
            }
        }
        r
    }
}

impl Duplicate for ToolCallSet {
    fn duplicate(&self) -> (r: Self) {
        self.clone()
    }
}

impl Clone for ToolCallSet {
    fn clone(&self) -> (r: Self)
        ensures
            r@ == self@,
    {
        proof {
            use_type_invariant(self);
        }
        let ids = duplicate_all(&self.ids);
        let r = ToolCallSet { ids };
        assert(r@ =~= self@);
        r
    }
}

/// Mutable state owned by an agent.
#[derive(Clone, Debug)]
pub struct AgentState {
    /// Static system instructions.
    pub system_prompt: String,
    /// Selected model identity.
    pub model: Option<ModelDescriptor>,
    /// Selected reasoning level.
    pub thinking_level: ThinkingLevel,
    /// Canonical conversation history.
    pub messages: Vec<Message>,
    /// Explicit host-only context retained beside the transcript.
    ///
    /// These values are not sent to a provider by default. A context hook may filter or
    /// convert them at the model boundary.
    pub host_messages: Vec<SerializedJson>,
    /// Current ownership phase.
    pub phase: AgentPhase,
    /// Partial assistant content while a model stream is active.
    pub partial_response: Option<String>,
    /// Whether a provider stream is currently open.
    pub is_streaming: bool,
    /// Tool calls awaiting preparation or execution.
    pub pending_tool_calls: ToolCallSet,
    /// Last runtime error, retained for state inspection.
    pub last_error: Option<String>,
    /// Retained provider-reported model accounting.
    pub accounting: ModelAccountingSnapshot,
    /// Identifier of the next message.
    pub next_message_id: u64,
}

/// Model of an [`AgentState`].
#[verifier::ext_equal]
pub struct AgentStateModel {
    pub system_prompt: Seq<char>,
    pub model: Option<ModelDescriptorModel>,
    pub thinking_level: ThinkingLevel,
    pub messages: Seq<MessageModel>,
    pub host_messages: Seq<Seq<char>>,
    pub phase: AgentPhase,
    pub partial_response: Option<Seq<char>>,
    pub is_streaming: bool,
    pub pending_tool_calls: Set<Seq<char>>,
    pub last_error: Option<Seq<char>>,
    pub accounting: AccountingModel,
    pub next_message_id: u64,
}

impl View for AgentState {
    type V = AgentStateModel;

    open spec fn view(&self) -> AgentStateModel {
        AgentStateModel {
            system_prompt: self.system_prompt@,
            model: crate::model::opt_view(self.model),
            thinking_level: self.thinking_level,
            messages: crate::model::views(self.messages@),
            host_messages: crate::model::views(self.host_messages@),
            phase: self.phase,
            partial_response: crate::model::opt_view(self.partial_response),
            is_streaming: self.is_streaming,
            pending_tool_calls: self.pending_tool_calls@,
            last_error: crate::model::opt_view(self.last_error),
            accounting: self.accounting@,
            next_message_id: self.next_message_id,
        }
    }
}

impl AgentStateModel {
    /// The state of an agent that was never used.
    pub open spec fn fresh() -> AgentStateModel {
        AgentStateModel {
            system_prompt: Seq::empty(),
            model: None,
            thinking_level: ThinkingLevel::Default,
            messages: Seq::empty(),
            host_messages: Seq::empty(),
            phase: AgentPhase::Idle,
            partial_response: None,
            is_streaming: false,
            pending_tool_calls: Set::empty(),
            last_error: None,
            accounting: AccountingModel::empty(),
            next_message_id: 1,
        }
    }

    /// The state after a message identifier was given out.
    pub open spec fn allocated(self) -> AgentStateModel {
        AgentStateModel { next_message_id: saturating_sum(self.next_message_id, 1), ..self }
    }

    /// The state with one more message at the end of the transcript.
    pub open spec fn appended(self, message: MessageModel) -> AgentStateModel {
        AgentStateModel { messages: self.messages.push(message), ..self }
    }

    /// The state with a transcript that a compaction proposed.
    pub open spec fn with_replacement(self, messages: Seq<MessageModel>) -> AgentStateModel {
        let bound = id_bound(messages);
        AgentStateModel {
            messages,
            next_message_id: if bound > self.next_message_id {
                bound
            } else {
                self.next_message_id
            },
            ..self
        }
    }

    /// The state without anything that only a run in progress may leave behind.
    pub open spec fn settled(self, error: Option<Seq<char>>) -> AgentStateModel {
        AgentStateModel {
            partial_response: None,
            is_streaming: false,
            pending_tool_calls: Set::empty(),
            last_error: error,
            phase: AgentPhase::Idle,
            ..self
        }
    }

    /// Whether an idle agent holds no transient run state.
    pub open spec fn quiescent(self) -> bool {
        self.phase == AgentPhase::Idle ==> self.partial_response is None && !self.is_streaming
            && self.pending_tool_calls == Set::<Seq<char>>::empty()
    }
}

/// One past the largest identifier among messages, or one.
pub open spec fn id_bound(messages: Seq<MessageModel>) -> u64
    decreases messages.len(),
{
    if messages.len() == 0 {
        1
    } else {
        let rest = id_bound(messages.drop_last());
        let last = saturating_sum(messages.last().message_id().0, 1);
        if last > rest {
            last
        } else {
            rest
        }
    }
}

impl Default for AgentState {
    fn default() -> (r: Self)
        ensures
            r@ == AgentStateModel::fresh(),
    {
        AgentState {
            system_prompt: String::new(),
            model: None,
            thinking_level: ThinkingLevel::Default,
            messages: Vec::new(),
            host_messages: Vec::new(),
            phase: AgentPhase::Idle,
            partial_response: None,
            is_streaming: false,
            pending_tool_calls: ToolCallSet::new(),
            last_error: None,
            accounting: ModelAccountingSnapshot::default(),
            next_message_id: 1,
        }
    }
}

impl AgentState {
    /// Allocate the next message identifier.
    pub fn allocate_message_id(&mut self) -> (r: MessageId)
        ensures
            r == MessageId(old(self)@.next_message_id),
            final(self)@ == old(self)@.allocated(),
    {
        let id = MessageId(self.next_message_id);
        self.next_message_id = self.next_message_id.saturating_add(1);
        id
    }

    /// Replace retained history after the compaction transaction has validated it.
    ///
    /// The next generated identifier advances beyond any proposed replacement identifier, so a
    /// later prompt cannot collide with a compactor-created summary.
    pub fn replace_messages(&mut self, messages: Vec<Message>)
        ensures
            final(self)@ == old(self)@.with_replacement(crate::model::views(messages@)),
    {
        let mut next_id: u64 = 1;
        let mut i: usize = 0;
        assert(crate::model::views(messages@).take(0) =~= Seq::<MessageModel>::empty());
        while i < messages.len()
            invariant
                i <= messages@.len(),
                next_id == id_bound(crate::model::views(messages@).take(i as int)),
            decreases messages.len() - i,
        {
            let id = message_id(&messages[i]);
            let past = id.0.saturating_add(1);
            proof {
                let all = crate::model::views(messages@);
                assert(all.take(i + 1).drop_last() =~= all.take(i as int));
                assert(all.take(i + 1).last() == messages@[i as int]@);
            }
            if past > next_id {
                next_id = past;
            }
            i = i + 1;
        }
        assert(crate::model::views(messages@).take(i as int) =~= crate::model::views(messages@));
        if next_id > self.next_message_id {
            self.next_message_id = next_id;
        }
        self.messages = messages;
    }

    /// Produce an owned inspection snapshot.
    pub fn snapshot(&self) -> (r: AgentSnapshot)
        ensures
            r.shows(self@),
    {
        AgentSnapshot {
            system_prompt: self.system_prompt.clone(),
            model: duplicate_opt(&self.model),
            thinking_level: self.thinking_level,
            messages: duplicate_all(&self.messages),
            host_messages: duplicate_all(&self.host_messages),
            phase: self.phase,
            partial_response: duplicate_opt(&self.partial_response),
            is_streaming: self.is_streaming,
            pending_tool_calls: self.pending_tool_calls.duplicate(),
            last_error: duplicate_opt(&self.last_error),
            accounting: self.accounting.duplicate(),
        }
    }
}

/// Owned, read-only view of agent state.
#[derive(Clone, Debug, Eq, PartialEq)]
pub struct AgentSnapshot {
    /// Static system instructions.
    pub system_prompt: String,
    /// Selected model identity.
    pub model: Option<ModelDescriptor>,
    /// Selected reasoning level.
    pub thinking_level: ThinkingLevel,
    /// Canonical conversation history.
    pub messages: Vec<Message>,
    /// Explicit host-only context retained beside the transcript.
    pub host_messages: Vec<SerializedJson>,
    /// Current ownership phase.
    pub phase: AgentPhase,
    /// Partial assistant content, if streaming.
    pub partial_response: Option<String>,
    /// Whether a provider stream is open.
    pub is_streaming: bool,
    /// Pending tool calls.
    pub pending_tool_calls: ToolCallSet,
    /// Last runtime error.
    pub last_error: Option<String>,
    /// Retained per-turn and aggregate provider-reported model accounting.
    pub accounting: ModelAccountingSnapshot,
}

impl AgentSnapshot {
    /// Whether a snapshot shows a state, field by field.
    pub open spec fn shows(self, state: AgentStateModel) -> bool {
        &&& self.system_prompt@ == state.system_prompt
        &&& crate::model::opt_view(self.model) == state.model
        &&& self.thinking_level == state.thinking_level
        &&& crate::model::views(self.messages@) == state.messages
        &&& crate::model::views(self.host_messages@) == state.host_messages
        &&& self.phase == state.phase
        &&& crate::model::opt_view(self.partial_response) == state.partial_response
        &&& self.is_streaming == state.is_streaming
        &&& self.pending_tool_calls@ == state.pending_tool_calls
        &&& crate::model::opt_view(self.last_error) == state.last_error
        &&& self.accounting@ == state.accounting
    }
}

/// Mutable state retained by one run.
#[derive(Clone, Debug)]
pub struct RunState {
    /// Stable run identifier.
    pub id: RunId,
    /// Current lifecycle phase.
    pub phase: RunPhase,
    /// Current turn, if one has started.
    pub turn_id: Option<TurnId>,
    /// Terminal reason, if known.
    pub stop_reason: Option<StopReason>,
    /// Runtime error text, if failed.
    pub error: Option<String>,
    /// Number of events emitted for this run.
    pub event_count: u64,
    /// Lifecycle events emitted in source order.
    pub events: Vec<AgentEvent>,
}

/// Model of a [`RunState`].
#[verifier::ext_equal]
pub struct RunStateModel {
    pub id: RunId,
    pub phase: RunPhase,
    pub turn_id: Option<TurnId>,
    pub stop_reason: Option<StopReason>,
    pub error: Option<Seq<char>>,
    pub event_count: u64,
    pub events: Seq<EventModel>,
}

impl View for RunState {
    type V = RunStateModel;

    open spec fn view(&self) -> RunStateModel {
        RunStateModel {
            id: self.id,
            phase: self.phase,
            turn_id: self.turn_id,
            stop_reason: self.stop_reason,
            error: crate::model::opt_view(self.error),
            event_count: self.event_count,
            events: crate::model::views(self.events@),
        }
    }
}

impl RunStateModel {
    /// A run before its first lifecycle event.
    pub open spec fn created(id: RunId) -> RunStateModel {
        RunStateModel {
            id,
            phase: RunPhase::Created,
            turn_id: None,
            stop_reason: None,
            error: None,
            event_count: 0,
            events: Seq::empty(),
        }
    }

    /// The envelope that the next event of this run gets.
    pub open spec fn next_event(self, kind: EventKindModel) -> EventModel {
        EventModel {
            run_id: self.id,
            sequence: EventSequence(saturating_sum(self.event_count, 1)),
            kind,
        }
    }

    /// The run after it recorded one event.
    pub open spec fn recorded(self, kind: EventKindModel) -> RunStateModel {
        RunStateModel {
            event_count: saturating_sum(self.event_count, 1),
            events: self.events.push(self.next_event(kind)),
            ..self
        }
    }

    /// Every event carries the run's identifier and its place in the order of emission.
    pub open spec fn numbered(self) -> bool {
        &&& self.event_count as int == if self.events.len() <= u64::MAX {
            self.events.len() as int
        } else {
            u64::MAX as int
        }
        &&& forall|i: int|
            0 <= i < self.events.len() ==> (#[trigger] self.events[i]).run_id == self.id
                && self.events[i].sequence.0 as int == if i + 1 <= u64::MAX {
                i + 1
            } else {
                u64::MAX as int
            }
    }

    /// The run with a terminal outcome.
    pub open spec fn finished(
        self,
        phase: RunPhase,
        reason: StopReason,
        error: Option<Seq<char>>,
    ) -> RunStateModel {
        RunStateModel { phase, stop_reason: Some(reason), error, ..self }
    }
}

impl RunState {
    /// Create a run before its first lifecycle event.
    pub fn created(id: RunId) -> (r: Self)
        ensures
            r@ == RunStateModel::created(id),
            r@.numbered(),
    {
        RunState {
            id,
            phase: RunPhase::Created,
            turn_id: None,
            stop_reason: None,
            error: None,
            event_count: 0,
            events: Vec::new(),
        }
    }

    /// Record an event under the run's next local sequence, and return its envelope.
    pub fn record_event(&mut self, kind: AgentEventKind) -> (r: AgentEvent)
        ensures
            r@ == old(self)@.next_event(kind@),
            final(self)@ == old(self)@.recorded(kind@),
            old(self)@.numbered() ==> final(self)@.numbered(),
    {
        let ghost before = self@;
        self.event_count = self.event_count.saturating_add(1);
        let event = AgentEvent {
            run_id: self.id,
            sequence: EventSequence(self.event_count),
            kind,
        };
        self.events.push(event.duplicate());
        proof {
            let after = self@;
            assert(after.events =~= before.events.push(before.next_event(kind@)));
            if before.numbered() {
                assert forall|i: int| 0 <= i < after.events.len() implies (
                #[trigger] after.events[i]).run_id == after.id && after.events[i].sequence.0 as int
                    == (if i + 1 <= u64::MAX {
                    i + 1
                } else {
                    u64::MAX as int
                }) by {
                    if i < before.events.len() {
                        assert(after.events[i] == before.events[i]);
                    }
                }
            }
        }
        event
    }

    /// Produce an owned run snapshot.
    pub fn snapshot(&self) -> (r: RunSnapshot)
        ensures
            r.shows(self@),
    {
        RunSnapshot {
            id: self.id,
            phase: self.phase,
            turn_id: self.turn_id,
            stop_reason: self.stop_reason,
            error: duplicate_opt(&self.error),
            event_count: self.event_count,
        }
    }
}

/// Owned, read-only view of run state.
#[derive(Clone, Debug, Eq, PartialEq)]
pub struct RunSnapshot {
    /// Stable run identifier.
    pub id: RunId,
    /// Current lifecycle phase.
    pub phase: RunPhase,
    /// Current turn identifier.
    pub turn_id: Option<TurnId>,
    /// Terminal reason.
    pub stop_reason: Option<StopReason>,
    /// Runtime error text.
    pub error: Option<String>,
    /// Number of emitted events.
    pub event_count: u64,
}

impl RunSnapshot {
    /// Whether a snapshot shows a run, field by field.
    pub open spec fn shows(self, run: RunStateModel) -> bool {
        &&& self.id == run.id
        &&& self.phase == run.phase
        &&& self.turn_id == run.turn_id
        &&& self.stop_reason == run.stop_reason
        &&& crate::model::opt_view(self.error) == run.error
        &&& self.event_count == run.event_count
    }
}

} // verus!
