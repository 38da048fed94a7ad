//! Caller-supplied, transactional conversation compaction.
//!
//! The agent owns the retained conversation and therefore owns the compaction transaction. A
//! compactor receives an owned snapshot, but cannot change the agent directly. Its proposed
//! replacement is validated, and committed only when the owning [`CompactionHandle`] is still
//! active and uncancelled.

use crate::agent::{counted, owner, refusal, upcoming_run, Agent, AgentModel};
use crate::error::{CoreError, CoreErrorModel, TransitionModel};
use crate::event::{
    AgentEvent, AgentEventKind, CompactionOutcome, EventKindModel, EventModel, OutcomeModel,
};
use crate::model::{duplicate_all, duplicate_opt, Duplicate};
use crate::run::RunHandle;
use crate::state::{
    message_id, AgentPhase, AgentStateModel, AssistantToolCall, CallModel, ModelDescriptorModel,
    Message, MessageId, MessageModel, ModelDescriptor, RunId, RunPhase, RunStateModel,
    SerializedJson, StopReason, ToolCallId, Usage, UsageModel,
};
use crate::text::{debug_quoted, digits, push_number, quoted, same};
use crate::transition::{self, RunModel};
use vstd::prelude::*;

verus! {

broadcast use crate::model::group_views;

/// Version of the context shape supplied to a compactor.
pub const COMPACTION_CONTEXT_VERSION: u32 = 1;

/// An owned, versioned view of the conversation a compactor may replace.
///
/// The selected model is informational: choosing or replacing a provider is a separate
/// idle-only operation on [`Agent`].
#[derive(Clone, Debug, Eq, PartialEq)]
pub struct CompactionContext {
    /// Version of this request shape.
    pub version: u32,
    /// Static instructions associated with this conversation.
    pub system_prompt: String,
    /// Selected model identity, if the host configured one.
    pub model: Option<ModelDescriptor>,
    /// Canonical retained conversation.
    pub messages: Vec<Message>,
    /// Explicit host-only context retained beside the conversation.
    pub host_messages: Vec<SerializedJson>,
}

/// Model of a [`CompactionContext`].
#[verifier::ext_equal]
pub struct CompactionContextModel {
    pub version: u32,
    pub system_prompt: Seq<char>,
    pub model: Option<ModelDescriptorModel>,
    pub messages: Seq<MessageModel>,
    pub host_messages: Seq<Seq<char>>,
}

impl View for CompactionContext {
    type V = CompactionContextModel;

    open spec fn view(&self) -> CompactionContextModel {
        CompactionContextModel {
            version: self.version,
            system_prompt: self.system_prompt@,
            model: crate::model::opt_view(self.model),
            messages: crate::model::views(self.messages@),
            host_messages: crate::model::views(self.host_messages@),
        }
    }
}

/// A proposal from a compactor, validated before it is committed.
#[derive(Clone, Debug, Eq, PartialEq)]
pub struct CompactionResult {
    /// Replacement canonical conversation.
    pub messages: Vec<Message>,
    /// Optional accounting reported by the compactor's own provider call.
    ///
    /// This stays attached to the compaction event because compaction is not a normal model
    /// turn. It is not estimated, aggregated, or priced.
    pub usage: Option<Usage>,
}

/// Model of a [`CompactionResult`].
#[verifier::ext_equal]
pub struct CompactionResultModel {
    pub messages: Seq<MessageModel>,
    pub usage: Option<UsageModel>,
}

impl View for CompactionResult {
    type V = CompactionResultModel;

    open spec fn view(&self) -> CompactionResultModel {
        CompactionResultModel {
            messages: crate::model::views(self.messages@),
            usage: crate::model::opt_view(self.usage),
        }
    }
}

impl CompactionResult {
    /// Construct a result with no provider-reported compaction accounting.
    pub fn new(messages: Vec<Message>) -> (r: Self)
        ensures
            r@ == (CompactionResultModel {
                messages: crate::model::views(messages@),
                usage: None,
            }),
    {
        CompactionResult { messages, usage: None }
    }

    /// Attach provider-reported compaction accounting without deriving a price.
    pub fn with_usage(self, usage: Usage) -> (r: Self)
        ensures
            r@ == (CompactionResultModel { usage: Some(usage@), ..self@ }),
    {
        CompactionResult { messages: self.messages, usage: Some(usage) }
    }
}

/// A typed compactor failure returned to the transaction boundary.
#[derive(Clone, Debug, Eq, PartialEq)]
pub enum CompactionError {
    /// The compactor could not produce a replacement.
    Failed { message: String },
    /// The compactor returned a replacement that violates conversation invariants.
    InvalidReplacement { message: String },
}

/// Model of a [`CompactionError`].
#[verifier::ext_equal]
pub enum CompactionErrorModel {
    Failed { message: Seq<char> },
    InvalidReplacement { message: Seq<char> },
}

impl View for CompactionError {
    type V = CompactionErrorModel;

    open spec fn view(&self) -> CompactionErrorModel {
        match *self {
            CompactionError::Failed { message } => CompactionErrorModel::Failed {
                message: message@,
            },
            CompactionError::InvalidReplacement { message } => {
                CompactionErrorModel::InvalidReplacement { message: message@ }
            },
        }
    }
}

impl CompactionErrorModel {
    /// Diagnostic text of a failure.
    pub open spec fn text(self) -> Seq<char> {
        match self {
            CompactionErrorModel::Failed { message } => "compactor failed: "@ + message,
            CompactionErrorModel::InvalidReplacement { message } => {
                "invalid compacted conversation: "@ + message
            },
        }
    }
}

impl Duplicate for CompactionError {
    fn duplicate(&self) -> (r: Self) {
        match self {
            CompactionError::Failed { message } => CompactionError::Failed {
                message: message.clone(),
            },
            CompactionError::InvalidReplacement { message } => {
                CompactionError::InvalidReplacement { message: message.clone() }
            },
        }
    }
}

impl CompactionError {
    /// Construct a caller-supplied failure.
    pub fn failed(message: String) -> (r: Self)
        ensures
            r@ == (CompactionErrorModel::Failed { message: message@ }),
    {
        CompactionError::Failed { message }
    }

    /// Diagnostic text of this failure.
    pub fn text(&self) -> (r: String)
        ensures
            r@ == self@.text(),
    {
        match self {
            CompactionError::Failed { message } => {
                let mut out = "compactor failed: ".to_owned();
                out.push_str(message.as_str());
                out
            },
            CompactionError::InvalidReplacement { message } => {
                let mut out = "invalid compacted conversation: ".to_owned();
                out.push_str(message.as_str());
                out
            },
        }
    }
}

/// The calls that the assistant messages of a conversation request, in order.
pub open spec fn calls_in(messages: Seq<MessageModel>) -> Seq<CallModel>
    decreases messages.len(),
{
    if messages.len() == 0 {
        Seq::empty()
    } else {
        calls_in(messages.drop_last()) + requested(messages.last())
    }
}

/// The calls that one message requests.
pub open spec fn requested(message: MessageModel) -> Seq<CallModel> {
    match message {
        MessageModel::Assistant { tool_calls, .. } => tool_calls,
        _ => Seq::empty(),
    }
}

/// The last call with an identifier.
pub open spec fn find_call(calls: Seq<CallModel>, id: Seq<char>) -> Option<CallModel>
    decreases calls.len(),
{
    if calls.len() == 0 {
        None
    } else if calls.last().id == id {
        Some(calls.last())
    } else {
        find_call(calls.drop_last(), id)
    }
}

/// Why a sequence of calls, after earlier ones, reuses an identifier.
pub open spec fn reuse(earlier: Seq<CallModel>, calls: Seq<CallModel>) -> Option<Seq<char>>
    decreases calls.len(),
{
    if calls.len() == 0 {
        None
    } else {
        match reuse(earlier, calls.drop_last()) {
            Some(text) => Some(text),
            None => match find_call(earlier + calls.drop_last(), calls.last().id) {
                Some(previous) => Some(
                    "tool call ID "@ + calls.last().id + " is reused by "@ + debug_quoted(
                        previous.name,
                    ) + " and "@ + debug_quoted(calls.last().name),
                ),
                None => None,
            },
        }
    }
}

/// Whether a message is the result of the call with an identifier.
pub open spec fn answers(message: MessageModel, id: Seq<char>) -> bool {
    message matches MessageModel::ToolResult { tool_call_id, .. } && tool_call_id == id
}

/// Why a message may not follow the messages before it.
pub open spec fn fault(before: Seq<MessageModel>, message: MessageModel) -> Option<Seq<char>> {
    let id = message.message_id();
    if id.0 == 0 || id.0 == u64::MAX {
        Some("message IDs zero and u64::MAX are reserved"@)
    } else if exists|j: int| 0 <= j < before.len() && (#[trigger] before[j]).message_id() == id {
        Some("message ID "@ + digits(id.0 as nat) + " occurs more than once"@)
    } else {
        match message {
            MessageModel::User { .. } => None,
            MessageModel::Assistant { tool_calls, .. } => reuse(calls_in(before), tool_calls),
            MessageModel::ToolResult { tool_call_id, tool_name, .. } => match find_call(
                calls_in(before),
                tool_call_id,
            ) {
                Some(call) => if call.name != tool_name {
                    Some(
                        "tool result "@ + tool_call_id + " names "@ + debug_quoted(tool_name)
                            + ", but its call names "@ + debug_quoted(call.name),
                    )
                } else if exists|j: int|
                    0 <= j < before.len() && answers(#[trigger] before[j], tool_call_id) {
                    Some("tool call "@ + tool_call_id + " has more than one retained result"@)
                } else {
                    None
                },
                None => Some(
                    "tool result "@ + tool_call_id + " has no preceding assistant call"@,
                ),
            },
        }
    }
}

/// The fault of the first message that may not stand in a conversation.
pub open spec fn first_fault(messages: Seq<MessageModel>) -> Option<Seq<char>>
    decreases messages.len(),
{
    if messages.len() == 0 {
        None
    } else {
        match first_fault(messages.drop_last()) {
            Some(text) => Some(text),
            None => fault(messages.drop_last(), messages.last()),
        }
    }
}

/// What a replacement conversation has to satisfy: identifiers are usable and distinct, no
/// call identifier is reused, and each tool result answers, alone, an earlier call of the same
/// name.
pub open spec fn coherent(messages: Seq<MessageModel>) -> bool {
    &&& forall|i: int|
        0 <= i < messages.len() ==> 0 < (#[trigger] messages[i]).message_id().0 < u64::MAX
    &&& forall|i: int, j: int|
        0 <= i < j < messages.len() ==> (#[trigger] messages[i]).message_id() != (
        #[trigger] messages[j]).message_id()
    &&& forall|a: int, b: int|
        0 <= a < b < calls_in(messages).len() ==> (#[trigger] calls_in(messages)[a]).id != (
        #[trigger] calls_in(messages)[b]).id
    &&& forall|i: int|
        0 <= i < messages.len() && (#[trigger] messages[i]) is ToolResult ==> called_before(
            messages,
            i,
        )
    &&& forall|i: int, j: int|
        0 <= i < j < messages.len() && (#[trigger] messages[i]) is ToolResult && (
        #[trigger] messages[j]) is ToolResult ==> messages[i]->tool_call_id
            != messages[j]->tool_call_id
}

/// Whether a call has an identifier and a tool name.
pub open spec fn names(call: CallModel, id: Seq<char>, tool_name: Seq<char>) -> bool {
    call.id == id && call.name == tool_name
}

/// Whether an earlier assistant message requests the call that a tool result answers.
pub open spec fn called_before(messages: Seq<MessageModel>, i: int) -> bool {
    exists|c: int|
        0 <= c < calls_in(messages.take(i)).len() && names(
            #[trigger] calls_in(messages.take(i))[c],
            messages[i]->tool_call_id,
            messages[i]->tool_name,
        )
}

proof fn lemma_find_call(calls: Seq<CallModel>, id: Seq<char>)
    ensures
        find_call(calls, id) matches Some(call) ==> call.id == id && (exists|c: int|
            0 <= c < calls.len() && #[trigger] calls[c] == call),
        find_call(calls, id) is None <==> forall|c: int|
            0 <= c < calls.len() ==> (#[trigger] calls[c]).id != id,
    decreases calls.len(),
{
    if calls.len() > 0 {
        lemma_find_call(calls.drop_last(), id);
        if calls.last().id == id {
            assert(calls[calls.len() - 1] == calls.last());
        } else {
            match find_call(calls.drop_last(), id) {
                Some(call) => {
                    let c = choose|c: int|
                        0 <= c < calls.drop_last().len() && #[trigger] calls.drop_last()[c] == call;
                    assert(calls[c] == call);
                },
                None => {
                    assert forall|c: int| 0 <= c < calls.len() implies (#[trigger] calls[c]).id
                        != id by {
                        if c < calls.len() - 1 {
                            assert(calls.drop_last()[c] == calls[c]);
                        }
                    }
                },
            }
        }
    }
}

/// Whether no identifier occurs twice among calls.
spec fn distinct(calls: Seq<CallModel>) -> bool {
    forall|a: int, b: int|
        0 <= a < b < calls.len() ==> (#[trigger] calls[a]).id != (#[trigger] calls[b]).id
}

proof fn lemma_reuse(earlier: Seq<CallModel>, calls: Seq<CallModel>)
    requires
        distinct(earlier),
    ensures
        reuse(earlier, calls) is None <==> distinct(earlier + calls),
    decreases calls.len(),
{
    let all = earlier + calls;
    if calls.len() == 0 {
        assert(all =~= earlier);
    } else {
        let front = earlier + calls.drop_last();
        lemma_reuse(earlier, calls.drop_last());
        lemma_find_call(front, calls.last().id);
        assert(all =~= front.push(calls.last()));
        if reuse(earlier, calls.drop_last()) is None {
            if find_call(front, calls.last().id) is None {
                assert forall|a: int, b: int| 0 <= a < b < all.len() implies (#[trigger] all[a]).id
                    != (#[trigger] all[b]).id by {
                    assert(all[a] == front[a]);
                    if b < front.len() {
                        assert(all[b] == front[b]);
                    }
                }
            } else {
                let c = choose|c: int|
                    0 <= c < front.len() && #[trigger] front[c] == find_call(
                        front,
                        calls.last().id,
                    )->0;
                assert(all[c].id == all[front.len() as int].id);
            }
        } else {
            let (a, b) = choose|a: int, b: int|
                0 <= a < b < front.len() && (#[trigger] front[a]).id == (#[trigger] front[b]).id;
            assert(all[a].id == all[b].id);
        }
    }
}

/// The fault that validation finds first is none exactly when the conversation is coherent.
pub proof fn law_no_fault_means_coherent(messages: Seq<MessageModel>)
    ensures
        first_fault(messages) is None <==> coherent(messages),
    decreases messages.len(),
{
    if messages.len() == 0 {
        assert(calls_in(messages) =~= Seq::<CallModel>::empty());
    } else {
        let before = messages.drop_last();
        let last = messages.last();
        let n = before.len() as int;
        law_no_fault_means_coherent(before);
        assert(messages =~= before.push(last));
        assert(calls_in(messages) == calls_in(before) + requested(last));
        assert forall|i: int| 0 <= i < n implies #[trigger] messages.take(i) == before.take(i) by {
            assert(messages.take(i) =~= before.take(i));
        }
        assert(messages.take(n) =~= before);
        if coherent(messages) {
            lemma_coherent_prefix(before, last);
            lemma_no_fault(before, last);
        }
        if coherent(before) && fault(before, last) is None {
            lemma_coherent_push(before, last);
        }
    }
}

proof fn lemma_coherent_prefix(before: Seq<MessageModel>, last: MessageModel)
    requires
        coherent(before.push(last)),
    ensures
        coherent(before),
{
    let messages = before.push(last);
    assert(messages.drop_last() =~= before);
    let all = calls_in(messages);
    assert(all == calls_in(before) + requested(last));
    assert forall|i: int| 0 <= i < before.len() implies #[trigger] before[i] == messages[i] by {}
    assert forall|a: int, b: int| 0 <= a < b < calls_in(before).len() implies (
    #[trigger] calls_in(before)[a]).id != (#[trigger] calls_in(before)[b]).id by {
        assert(all[a] == calls_in(before)[a]);
        assert(all[b] == calls_in(before)[b]);
    }
    assert forall|i: int| 0 <= i < before.len() && (#[trigger] before[i]) is ToolResult implies
        called_before(before, i) by {
        assert(messages[i] is ToolResult);
        assert(messages.take(i) =~= before.take(i));
        assert(called_before(messages, i));
        let calls = calls_in(messages.take(i));
        let c = choose|c: int|
            0 <= c < calls.len() && names(
                #[trigger] calls[c],
                messages[i]->tool_call_id,
                messages[i]->tool_name,
            );
        assert(calls_in(before.take(i))[c] == calls[c]);
    }
    assert forall|i: int, j: int|
        0 <= i < j < before.len() && (#[trigger] before[i]) is ToolResult && (
        #[trigger] before[j]) is ToolResult implies before[i]->tool_call_id
        != before[j]->tool_call_id by {
        assert(messages[i] is ToolResult && messages[j] is ToolResult);
    }
}

proof fn lemma_no_fault(before: Seq<MessageModel>, last: MessageModel)
    requires
        coherent(before.push(last)),
        coherent(before),
    ensures
        fault(before, last) is None,
{
    let messages = before.push(last);
    let n = before.len() as int;
    assert(messages[n] == last);
    assert(messages.drop_last() =~= before);
    assert(messages.take(n) =~= before);
    assert(distinct(calls_in(before)));
    assert(calls_in(messages) == calls_in(before) + requested(last));
    if exists|j: int| 0 <= j < before.len() && (#[trigger] before[j]).message_id()
        == last.message_id() {
        let j = choose|j: int|
            0 <= j < before.len() && (#[trigger] before[j]).message_id() == last.message_id();
        assert(messages[j].message_id() == messages[n].message_id());
    }
    match last {
        MessageModel::Assistant { tool_calls, .. } => {
            lemma_reuse(calls_in(before), tool_calls);
            assert(distinct(calls_in(messages)));
        },
        MessageModel::ToolResult { tool_call_id, tool_name, .. } => {
            assert(called_before(messages, n));
            let calls = calls_in(messages.take(n));
            let c = choose|c: int|
                0 <= c < calls.len() && names(
                    #[trigger] calls[c],
                    messages[n]->tool_call_id,
                    messages[n]->tool_name,
                );
            lemma_find_call(calls, tool_call_id);
            let call = find_call(calls, tool_call_id)->0;
            let d = choose|d: int| 0 <= d < calls.len() && #[trigger] calls[d] == call;
            assert(c == d);
            if exists|j: int| 0 <= j < n && answers(#[trigger] before[j], tool_call_id) {
                let j = choose|j: int| 0 <= j < n && answers(#[trigger] before[j], tool_call_id);
                assert(messages[j] is ToolResult && messages[n] is ToolResult);
            }
        },
        MessageModel::User { .. } => {},
    }
}

proof fn lemma_coherent_push(before: Seq<MessageModel>, last: MessageModel)
    requires
        coherent(before),
        fault(before, last) is None,
    ensures
        coherent(before.push(last)),
{
    let messages = before.push(last);
    let n = before.len() as int;
    assert(messages.drop_last() =~= before);
    assert(messages.take(n) =~= before);
    assert(distinct(calls_in(before)));
    let all = calls_in(messages);
    assert(all == calls_in(before) + requested(last));
    assert(distinct(all)) by {
        match last {
            MessageModel::Assistant { tool_calls, .. } => {
                lemma_reuse(calls_in(before), tool_calls);
            },
            _ => {
                assert(all =~= calls_in(before));
            },
        }
    }
    assert forall|i: int, j: int| 0 <= i < j < messages.len() implies (
    #[trigger] messages[i]).message_id() != (#[trigger] messages[j]).message_id() by {
        assert(messages[i] == before[i]);
        if j < n {
            assert(messages[j] == before[j]);
        }
    }
    assert forall|i: int|
        0 <= i < messages.len() && (#[trigger] messages[i]) is ToolResult implies called_before(
        messages,
        i,
    ) by {
        assert(messages.take(i) =~= before.take(i));
        if i < n {
            assert(before[i] is ToolResult);
            assert(called_before(before, i));
            let calls = calls_in(before.take(i));
            let c = choose|c: int|
                0 <= c < calls.len() && names(
                    #[trigger] calls[c],
                    before[i]->tool_call_id,
                    before[i]->tool_name,
                );
            assert(calls_in(messages.take(i))[c] == calls[c]);
        } else {
            let calls = calls_in(before);
            lemma_find_call(calls, last->tool_call_id);
            let call = find_call(calls, last->tool_call_id)->0;
            let c = choose|c: int| 0 <= c < calls.len() && #[trigger] calls[c] == call;
            assert(calls_in(messages.take(i))[c] == call);
        }
    }
    assert forall|i: int, j: int|
        0 <= i < j < messages.len() && (#[trigger] messages[i]) is ToolResult && (
        #[trigger] messages[j]) is ToolResult implies messages[i]->tool_call_id
        != messages[j]->tool_call_id by {
        assert(messages[i] == before[i]);
        if j < n {
            assert(messages[j] == before[j]);
        } else {
            assert(!answers(before[i], last->tool_call_id));
        }
    }
}

fn invalid(message: String) -> (r: CompactionError)
    ensures
        r@ == (CompactionErrorModel::InvalidReplacement { message: message@ }),
{
    CompactionError::InvalidReplacement { message }
}

/// Find the last call with an identifier.
fn find<'a>(calls: &'a Vec<AssistantToolCall>, id: &ToolCallId) -> (r: Option<
    &'a AssistantToolCall,
>)
    ensures
        match r {
            Some(call) => find_call(crate::model::views(calls@), id@) == Some(call@),
            None => find_call(crate::model::views(calls@), id@) is None,
        },
{
    let ghost all = crate::model::views(calls@);
    let mut i: usize = calls.len();
    assert(all.take(i as int) =~= all);
    while i > 0
        invariant
            i <= calls@.len(),
            all == crate::model::views(calls@),
            find_call(all, id@) == find_call(all.take(i as int), id@),
        decreases i,
    {
        i = i - 1;
        proof {
            assert(all.take(i + 1).drop_last() =~= all.take(i as int));
            assert(all.take(i + 1).last() == calls@[i as int]@);
        }
        if same(calls[i].id.as_str(), id.as_str()) {
            return Some(&calls[i]);
        }
    }
    None
}

/// The first `n` messages hold one with an identifier.
fn holds_id(messages: &Vec<Message>, n: usize, id: MessageId) -> (r: bool)
    requires
        n <= messages@.len(),
    ensures
        r == exists|j: int|
            0 <= j < n && (#[trigger] crate::model::views(messages@).take(n as int)[j]).message_id()
                == id,
{
    let ghost before = crate::model::views(messages@).take(n as int);
    let mut j: usize = 0;
    while j < n
        invariant
            j <= n <= messages@.len(),
            before == crate::model::views(messages@).take(n as int),
            forall|k: int| 0 <= k < j ==> (#[trigger] before[k]).message_id() != id,
        decreases n - j,
    {
        assert(before[j as int] == messages@[j as int]@);
        if message_id(&messages[j]) == id {
            return true;
        }
        j = j + 1;
    }
    false
}

/// The first `n` messages hold a result of a call.
fn holds_result(messages: &Vec<Message>, n: usize, id: &ToolCallId) -> (r: bool)
    requires
        n <= messages@.len(),
    ensures
        r == exists|j: int|
            0 <= j < n && answers(
                #[trigger] crate::model::views(messages@).take(n as int)[j],
                id@,
            ),
{
    let ghost before = crate::model::views(messages@).take(n as int);
    let mut j: usize = 0;
    while j < n
        invariant
            j <= n <= messages@.len(),
            before == crate::model::views(messages@).take(n as int),
            forall|k: int| 0 <= k < j ==> !answers(#[trigger] before[k], id@),
        decreases n - j,
    {
        assert(before[j as int] == messages@[j as int]@);
        if let Message::ToolResult { tool_call_id, .. } = &messages[j] {
            if same(tool_call_id.as_str(), id.as_str()) {
                return true;
            }
        }
        j = j + 1;
    }
    false
}

fn reserved_text() -> (r: String)
    ensures
        r@ == "message IDs zero and u64::MAX are reserved"@,
{
    "message IDs zero and u64::MAX are reserved".to_owned()
}

fn repeated_text(id: MessageId) -> (r: String)
    ensures
        r@ == "message ID "@ + digits(id.0 as nat) + " occurs more than once"@,
{
    let mut out = "message ID ".to_owned();
    push_number(&mut out, id.0);
    out.push_str(" occurs more than once");
    out
}

fn reused_text(call: &AssistantToolCall, previous: &AssistantToolCall) -> (r: String)
    ensures
        r@ == "tool call ID "@ + call@.id + " is reused by "@ + debug_quoted(previous@.name)
            + " and "@ + debug_quoted(call@.name),
{
    let mut out = "tool call ID ".to_owned();
    out.push_str(call.id.as_str());
    out.push_str(" is reused by ");
    out.push_str(quoted(previous.name.as_str()).as_str());
    out.push_str(" and ");
    out.push_str(quoted(call.name.as_str()).as_str());
    out
}

fn around(front: &str, id: &str, back: &str) -> (r: String)
    ensures
        r@ == front@ + id@ + back@,
{
    let mut out = front.to_owned();
    out.push_str(id);
    out.push_str(back);
    out
}

fn misnamed_text(id: &ToolCallId, tool_name: &str, call_name: &str) -> (r: String)
    ensures
        r@ == "tool result "@ + id@ + " names "@ + debug_quoted(tool_name@)
            + ", but its call names "@ + debug_quoted(call_name@),
{
    let mut out = "tool result ".to_owned();
    out.push_str(id.as_str());
    out.push_str(" names ");
    out.push_str(quoted(tool_name).as_str());
    out.push_str(", but its call names ");
    out.push_str(quoted(call_name).as_str());
    out
}

/// Add the calls of one assistant message, unless one of them reuses an identifier.
fn add_calls(known: &mut Vec<AssistantToolCall>, calls: &Vec<AssistantToolCall>) -> (r: Option<
    String,
>)
    ensures
        crate::model::opt_view(r) == reuse(
            crate::model::views(old(known)@),
            crate::model::views(calls@),
        ),
        r is None ==> crate::model::views(final(known)@) == crate::model::views(old(known)@)
            + crate::model::views(calls@),
{
    let ghost earlier = crate::model::views(known@);
    let ghost all = crate::model::views(calls@);
    let mut k: usize = 0;
    assert(all.take(0) =~= Seq::<CallModel>::empty());
    assert(earlier + all.take(0) =~= earlier);
    assert(all.take(all.len() as int) =~= all);
    while k < calls.len()
        invariant
            k <= calls@.len(),
            all == crate::model::views(calls@),
            earlier == crate::model::views(old(known)@),
            reuse(earlier, all.take(k as int)) is None,
            crate::model::views(known@) == earlier + all.take(k as int),
        decreases calls.len() - k,
    {
        proof {
            assert(all.take(k + 1).drop_last() =~= all.take(k as int));
            assert(all.take(k + 1).last() == calls@[k as int]@);
        }
        let call = &calls[k];
        if let Some(previous) = find(known, &call.id) {
            let text = reused_text(call, previous);
            proof {
                lemma_reuse_prefix(earlier, all, k + 1);
            }
            return Some(text);
        }
        let ghost shorter = known@;
        known.push(call.duplicate());
        proof {
            assert(crate::model::views(known@) =~= crate::model::views(shorter).push(call@));
            assert(earlier + all.take(k + 1) =~= (earlier + all.take(k as int)).push(call@));
        }
        k = k + 1;
    }
    assert(all.take(k as int) =~= all);
    None
}

proof fn lemma_reuse_prefix(earlier: Seq<CallModel>, calls: Seq<CallModel>, k: int)
    requires
        0 <= k <= calls.len(),
        reuse(earlier, calls.take(k)) is Some,
    ensures
        reuse(earlier, calls) == reuse(earlier, calls.take(k)),
    decreases calls.len() - k,
{
    if k == calls.len() {
        assert(calls.take(k) =~= calls);
    } else {
        assert(calls.take(k + 1).drop_last() =~= calls.take(k));
        lemma_reuse_prefix(earlier, calls, k + 1);
    }
}

proof fn lemma_fault_prefix(messages: Seq<MessageModel>, k: int)
    requires
        0 <= k <= messages.len(),
        first_fault(messages.take(k)) is Some,
    ensures
        first_fault(messages) == first_fault(messages.take(k)),
    decreases messages.len() - k,
{
    if k == messages.len() {
        assert(messages.take(k) =~= messages);
    } else {
        assert(messages.take(k + 1).drop_last() =~= messages.take(k));
        lemma_fault_prefix(messages, k + 1);
    }
}

/// What is wrong with one message after the messages before it, whose calls are known.
fn check_message(
    messages: &Vec<Message>,
    i: usize,
    known: &mut Vec<AssistantToolCall>,
) -> (r: Option<String>)
    requires
        i < messages@.len(),
        crate::model::views(old(known)@) == calls_in(
            crate::model::views(messages@).take(i as int),
        ),
    ensures
        crate::model::opt_view(r) == fault(
            crate::model::views(messages@).take(i as int),
            messages@[i as int]@,
        ),
        r is None ==> crate::model::views(final(known)@) == crate::model::views(old(known)@)
            + requested(messages@[i as int]@),
{
    let id = message_id(&messages[i]);
    if id.0 == 0 || id.0 == u64::MAX {
        return Some(reserved_text());
    }
    if holds_id(messages, i, id) {
        return Some(repeated_text(id));
    }
    proof {
        assert(crate::model::views(known@) + Seq::<CallModel>::empty()
            =~= crate::model::views(known@));
    }
    match &messages[i] {
        Message::User { .. } => None,
        Message::Assistant { tool_calls, .. } => add_calls(known, tool_calls),
        Message::ToolResult { tool_call_id, tool_name, .. } => match find(known, tool_call_id) {
            None => Some(
                around(
                    "tool result ",
                    tool_call_id.as_str(),
                    " has no preceding assistant call",
                ),
            ),
            Some(call) => if !same(call.name.as_str(), tool_name.as_str()) {
                Some(misnamed_text(tool_call_id, tool_name.as_str(), call.name.as_str()))
            } else if holds_result(messages, i, tool_call_id) {
                Some(
                    around(
                        "tool call ",
                        tool_call_id.as_str(),
                        " has more than one retained result",
                    ),
                )
            } else {
                None
            },
        },
    }
}

/// Validate a replacement conversation, and report its first fault.
pub fn validate_messages(messages: &Vec<Message>) -> (r: Result<(), CompactionError>)
    ensures
        match first_fault(crate::model::views(messages@)) {
            None => r is Ok,
            Some(message) => r matches Err(e) && e@
                == (CompactionErrorModel::InvalidReplacement { message }),
        },
        r is Ok <==> coherent(crate::model::views(messages@)),
{
    let ghost all = crate::model::views(messages@);
    proof {
        law_no_fault_means_coherent(all);
    }
    let mut known: Vec<AssistantToolCall> = Vec::new();
    let mut i: usize = 0;
    assert(all.take(0) =~= Seq::<MessageModel>::empty());
    assert(crate::model::views(known@) =~= Seq::<CallModel>::empty());
    while i < messages.len()
        invariant
            i <= messages@.len(),
            all == crate::model::views(messages@),
            first_fault(all.take(i as int)) is None,
            crate::model::views(known@) == calls_in(all.take(i as int)),
            first_fault(all) is None <==> coherent(all),
        decreases messages.len() - i,
    {
        proof {
            assert(all.take(i + 1).drop_last() =~= all.take(i as int));
            assert(all.take(i + 1).last() == messages@[i as int]@);
        }
        if let Some(message) = check_message(messages, i, &mut known) {
            proof {
                lemma_fault_prefix(all, i + 1);
            }
            return Err(invalid(message));
        }
        i = i + 1;
    }
    assert(all.take(i as int) =~= all);
    Ok(())
}

/// What a compaction waits for.
#[derive(Clone, Copy, Debug, Eq, PartialEq, Structural)]
pub enum CompactionPoint {
    /// Not driven yet.
    Created,
    /// The start was published.
    Started,
    /// The compactor works.
    Compacting,
    /// The committed replacement was published.
    Replaced,
    /// The end of a successful compaction was published.
    Ended,
    /// The end of a failed compaction was published.
    Failed,
    /// The end of a cancelled compaction was published.
    Cancelled,
    /// Nothing is left to do.
    Finished,
}

/// The outcome of an action that a compaction asked its host for.
#[derive(Debug)]
pub enum CompactionInput {
    /// Begin to drive the compaction.
    Drive,
    /// The event reached its observers.
    Published,
    /// The publication failed.
    Failed(CoreError),
    /// The compactor returned.
    Compacted(Result<CompactionResult, CompactionError>),
}

/// Model of a [`CompactionInput`].
#[verifier::ext_equal]
pub enum CompactionInputModel {
    Drive,
    Published,
    Failed(CoreErrorModel),
    Compacted(Result<CompactionResultModel, CompactionErrorModel>),
}

impl View for CompactionInput {
    type V = CompactionInputModel;

    open spec fn view(&self) -> CompactionInputModel {
        match *self {
            CompactionInput::Drive => CompactionInputModel::Drive,
            CompactionInput::Published => CompactionInputModel::Published,
            CompactionInput::Failed(error) => CompactionInputModel::Failed(error@),
            CompactionInput::Compacted(outcome) => CompactionInputModel::Compacted(
                match outcome {
                    Ok(result) => Ok(result@),
                    Err(error) => Err(error@),
                },
            ),
        }
    }
}

/// What a compaction asks its host for.
#[derive(Debug)]
pub enum CompactionAction {
    /// Deliver an event to subscribers and observers.
    Publish(AgentEvent),
    /// Ask the compactor for a replacement.
    Compact(CompactionContext),
    /// The compaction settled with this outcome.
    Done(Result<(), CoreError>),
}

/// Model of a [`CompactionAction`].
#[verifier::ext_equal]
pub enum CompactionActionModel {
    Publish(EventModel),
    Compact(CompactionContextModel),
    Done(Result<(), CoreErrorModel>),
}

impl View for CompactionAction {
    type V = CompactionActionModel;

    open spec fn view(&self) -> CompactionActionModel {
        match *self {
            CompactionAction::Publish(event) => CompactionActionModel::Publish(event@),
            CompactionAction::Compact(context) => CompactionActionModel::Compact(context@),
            CompactionAction::Done(outcome) => CompactionActionModel::Done(
                match outcome {
                    Ok(()) => Ok(()),
                    Err(error) => Err(error@),
                },
            ),
        }
    }
}

/// A reserved, caller-driven manual compaction operation.
///
/// The handle has the same ownership and cancellation rules as a normal run: it is made while
/// the agent is idle, and driven by the host. Its events are a separate `Compaction*` grammar
/// rather than a synthetic assistant response.
#[derive(Debug)]
pub struct CompactionHandle {
    run: RunHandle,
    point: CompactionPoint,
    retained: usize,
    error: Option<CompactionError>,
}

/// Model of a [`CompactionHandle`].
#[verifier::ext_equal]
pub struct CompactionModel {
    pub run: RunModel,
    pub point: CompactionPoint,
    pub retained: usize,
    pub error: Option<CompactionErrorModel>,
}

impl View for CompactionHandle {
    type V = CompactionModel;

    closed spec fn view(&self) -> CompactionModel {
        CompactionModel {
            run: self.run@,
            point: self.point,
            retained: self.retained,
            error: crate::model::opt_view(self.error),
        }
    }
}

/// What a step of a compaction leaves.
#[verifier::ext_equal]
pub struct CompactionNext {
    pub compaction: CompactionModel,
    pub agent: AgentModel,
    pub action: CompactionActionModel,
}

/// Publish an event and wait at a point.
pub open spec fn announce(
    compaction: CompactionModel,
    agent: AgentModel,
    kind: EventKindModel,
    point: CompactionPoint,
) -> CompactionNext {
    CompactionNext {
        compaction: CompactionModel {
            run: RunModel { state: compaction.run.state.recorded(kind), ..compaction.run },
            point,
            ..compaction
        },
        agent,
        action: CompactionActionModel::Publish(compaction.run.state.next_event(kind)),
    }
}

/// Give the compaction its terminal outcome, and return to the host.
pub open spec fn settle(
    compaction: CompactionModel,
    agent: AgentModel,
    phase: RunPhase,
    reason: StopReason,
    error: Option<Seq<char>>,
    outcome: Result<(), CoreErrorModel>,
) -> CompactionNext {
    let (run, agent) = transition::finish(compaction.run, agent, phase, reason, error);
    CompactionNext {
        compaction: CompactionModel { run, point: CompactionPoint::Finished, ..compaction },
        agent,
        action: CompactionActionModel::Done(outcome),
    }
}

/// Settle a compaction whose event could not be delivered.
pub open spec fn settle_undelivered(
    compaction: CompactionModel,
    agent: AgentModel,
    error: CoreErrorModel,
) -> CompactionNext {
    settle(
        compaction,
        agent,
        RunPhase::Failed,
        StopReason::Error,
        Some(error.text()),
        Err(error),
    )
}

/// Publish the end of a failed compaction.
pub open spec fn announce_failure(
    compaction: CompactionModel,
    agent: AgentModel,
    error: CompactionErrorModel,
) -> CompactionNext {
    announce(
        CompactionModel { error: Some(error), ..compaction },
        agent,
        EventKindModel::CompactionEnd { outcome: OutcomeModel::Failed { message: error.text() } },
        CompactionPoint::Failed,
    )
}

/// Publish the end of a cancelled compaction.
pub open spec fn announce_cancellation(
    compaction: CompactionModel,
    agent: AgentModel,
) -> CompactionNext {
    announce(
        compaction,
        agent,
        EventKindModel::CompactionEnd { outcome: OutcomeModel::Cancelled },
        CompactionPoint::Cancelled,
    )
}

/// The context that a compactor gets.
pub open spec fn snapshot_of(agent: AgentModel) -> CompactionContextModel {
    CompactionContextModel {
        version: COMPACTION_CONTEXT_VERSION,
        system_prompt: agent.state.system_prompt,
        model: agent.state.model,
        messages: agent.state.messages,
        host_messages: agent.state.host_messages,
    }
}

/// Commit a proposal, unless the compaction was cancelled or lost the agent.
pub open spec fn commit(
    compaction: CompactionModel,
    agent: AgentModel,
    result: CompactionResultModel,
    cancelled: bool,
) -> CompactionNext {
    if cancelled || agent.state.phase != AgentPhase::Running(compaction.run.state.id) {
        announce_cancellation(compaction, agent)
    } else {
        let retained = result.messages.len() as usize;
        announce(
            CompactionModel { retained, ..compaction },
            AgentModel { state: agent.state.with_replacement(result.messages), ..agent },
            EventKindModel::CompactionResult {
                retained_message_count: retained,
                usage: result.usage,
            },
            CompactionPoint::Replaced,
        )
    }
}

/// Take a proposal: cancellation comes first, then validation, then the commit.
pub open spec fn consider(
    compaction: CompactionModel,
    agent: AgentModel,
    result: CompactionResultModel,
    cancelled: bool,
) -> CompactionNext {
    if cancelled {
        announce_cancellation(compaction, agent)
    } else {
        match first_fault(result.messages) {
            Some(message) => announce_failure(
                compaction,
                agent,
                CompactionErrorModel::InvalidReplacement { message },
            ),
            None => commit(compaction, agent, result, cancelled),
        }
    }
}

/// The refusal of an outcome that answers no pending action.
pub open spec fn unexpected(compaction: CompactionModel) -> CoreErrorModel {
    CoreErrorModel::InvalidTransition(
        TransitionModel {
            entity: "compaction"@,
            from: compaction.run.state.phase.spec_name(),
            operation: "step"@,
        },
    )
}

/// Go on after a published event.
pub open spec fn published(
    compaction: CompactionModel,
    agent: AgentModel,
    cancelled: bool,
) -> CompactionNext {
    match compaction.point {
        CompactionPoint::Started => if cancelled {
            announce_cancellation(compaction, agent)
        } else {
            CompactionNext {
                compaction: CompactionModel { point: CompactionPoint::Compacting, ..compaction },
                agent,
                action: CompactionActionModel::Compact(snapshot_of(agent)),
            }
        },
        CompactionPoint::Replaced => announce(
            compaction,
            agent,
            EventKindModel::CompactionEnd {
                outcome: OutcomeModel::Succeeded { retained_message_count: compaction.retained },
            },
            CompactionPoint::Ended,
        ),
        CompactionPoint::Ended => settle(
            compaction,
            agent,
            RunPhase::Succeeded,
            StopReason::EndTurn,
            None,
            if compaction.run.state.phase.terminal() {
                Err(CoreErrorModel::RunFinished { run_id: compaction.run.state.id })
            } else {
                Ok(())
            },
        ),
        CompactionPoint::Failed => {
            let error = compaction.error->0;
            settle(
                compaction,
                agent,
                RunPhase::Failed,
                StopReason::Error,
                Some(error.text()),
                Err(CoreErrorModel::Compaction(error)),
            )
        },
        CompactionPoint::Cancelled => settle(
            compaction,
            agent,
            RunPhase::Cancelled,
            StopReason::Cancelled,
            None,
            if compaction.run.state.phase.terminal() {
                Err(CoreErrorModel::RunFinished { run_id: compaction.run.state.id })
            } else {
                Err(CoreErrorModel::Cancelled)
            },
        ),
        _ => settle_undelivered(compaction, agent, unexpected(compaction)),
    }
}

/// The step function of a compaction.
pub open spec fn next(
    compaction: CompactionModel,
    agent: AgentModel,
    input: CompactionInputModel,
    cancelled: bool,
) -> CompactionNext {
    match input {
        CompactionInputModel::Drive => if compaction.point == CompactionPoint::Created
            || compaction.point == CompactionPoint::Finished {
            announce(
                compaction,
                agent,
                EventKindModel::CompactionStart {
                    source_message_count: agent.state.messages.len() as usize,
                },
                CompactionPoint::Started,
            )
        } else {
            settle_undelivered(compaction, agent, unexpected(compaction))
        },
        CompactionInputModel::Published => published(compaction, agent, cancelled),
        CompactionInputModel::Failed(error) => settle_undelivered(compaction, agent, error),
        CompactionInputModel::Compacted(outcome) => if compaction.point
            != CompactionPoint::Compacting {
            settle_undelivered(compaction, agent, unexpected(compaction))
        } else {
            match outcome {
                Ok(result) => consider(compaction, agent, result, cancelled),
                Err(error) => announce_failure(compaction, agent, error),
            }
        },
    }
}

impl CompactionModel {
    /// What holds of a compaction between two steps.
    pub open spec fn wf(self) -> bool {
        self.run.wf() && (self.point == CompactionPoint::Failed ==> self.error is Some)
    }

    /// A compaction that was not driven yet.
    pub open spec fn created(id: RunId) -> CompactionModel {
        let run = RunModel::created(id, Seq::empty(), 0, true);
        CompactionModel {
            run: RunModel {
                state: RunStateModel { phase: RunPhase::Running, ..run.state },
                ..run
            },
            point: CompactionPoint::Created,
            retained: 0,
            error: None,
        }
    }
}

/// The history changes only in the step that commits a coherent proposal of the compaction
/// that owns the agent, and then it is the proposal.
pub proof fn law_only_a_commit_changes_history(
    compaction: CompactionModel,
    agent: AgentModel,
    input: CompactionInputModel,
    cancelled: bool,
)
    ensures
        ({
            let after = next(compaction, agent, input, cancelled).agent;
            after.state.messages == agent.state.messages || (!cancelled && compaction.point
                == CompactionPoint::Compacting && agent.state.phase == AgentPhase::Running(
                compaction.run.state.id,
            ) && (input matches CompactionInputModel::Compacted(Ok(result)) && coherent(
                result.messages,
            ) && after.state.messages == result.messages))
        }),
{
    if let CompactionInputModel::Compacted(Ok(result)) = input {
        law_no_fault_means_coherent(result.messages);
    }
}

/// A compaction that returns to its host leaves the agent idle, unless it had its outcome
/// already.
pub proof fn law_settlement_leaves_the_agent_idle(
    compaction: CompactionModel,
    agent: AgentModel,
    input: CompactionInputModel,
    cancelled: bool,
)
    requires
        !compaction.run.state.phase.terminal(),
    ensures
        ({
            let after = next(compaction, agent, input, cancelled);
            after.action is Done ==> after.agent.state.phase == AgentPhase::Idle
                && after.agent.state.quiescent() && after.agent.active_run is None
                && after.compaction.run.state.phase.terminal()
        }),
{
}

impl CompactionHandle {
    /// What holds of a compaction between two steps.
    pub open spec fn wf(self) -> bool {
        self@.wf()
    }

    /// Stable operation identifier, allocated from the agent's run-identifier sequence.
    pub fn id(&self) -> (r: RunId)
        ensures
            r == self@.run.state.id,
    {
        self.run.id()
    }

    /// The ordered lifecycle events emitted by this compaction.
    pub fn events(&self) -> (r: Vec<AgentEvent>)
        ensures
            crate::model::views(r@) == self@.run.state.events,
    {
        self.run.events()
    }

    /// Request cancellation. This is idempotent after terminal settlement.
    pub fn abort(&mut self, agent: &mut Agent) -> (r: Result<(), CoreError>)
        requires
            old(self).wf(),
        ensures
            final(self).wf(),
            r is Ok,
            final(self)@ == (CompactionModel { run: old(self)@.run.stopped(), ..old(self)@ }),
            final(agent)@ == transition::aborted(old(self)@.run, old(agent)@),
    {
        let outcome = self.run.abort(agent);
        assert(self@ =~= CompactionModel { run: old(self)@.run.stopped(), ..old(self)@ });
        outcome
    }

    fn announce(&mut self, kind: AgentEventKind, point: CompactionPoint) -> (r: CompactionAction)
        requires
            old(self).wf(),
            point == CompactionPoint::Failed ==> old(self)@.error is Some,
        ensures
            final(self).wf(),
            forall|agent: AgentModel|
                leaves(final(self)@, agent, r@) == #[trigger] announce(
                    old(self)@,
                    agent,
                    kind@,
                    point,
                ),
    {
        let ghost before = self@;
        let event = self.run.event(kind);
        self.point = point;
        let ghost after = announce(before, arbitrary(), kind@, point).compaction;
        assert(self@ =~= after);
        CompactionAction::Publish(event)
    }

    fn announce_failure(&mut self, error: CompactionError) -> (r: CompactionAction)
        requires
            old(self).wf(),
        ensures
            final(self).wf(),
            forall|agent: AgentModel|
                leaves(final(self)@, agent, r@) == #[trigger] announce_failure(
                    old(self)@,
                    agent,
                    error@,
                ),
    {
        let ghost before = self@;
        let outcome = CompactionOutcome::Failed { message: error.text() };
        self.error = Some(error);
        assert(self@ =~= CompactionModel { error: Some(error@), ..before });
        let ghost noted = self@;
        let action = self.announce(
            AgentEventKind::CompactionEnd { outcome },
            CompactionPoint::Failed,
        );
        assert forall|agent: AgentModel|
            leaves(self@, agent, action@) == #[trigger] announce_failure(
                before,
                agent,
                error@,
            ) by {
            let kind = EventKindModel::CompactionEnd {
                outcome: OutcomeModel::Failed { message: error@.text() },
            };
            assert(leaves(self@, agent, action@) == announce(
                noted,
                agent,
                kind,
                CompactionPoint::Failed,
            ));
        }
        action
    }

    fn announce_cancellation(&mut self) -> (r: CompactionAction)
        requires
            old(self).wf(),
        ensures
            final(self).wf(),
            forall|agent: AgentModel|
                leaves(final(self)@, agent, r@) == #[trigger] announce_cancellation(
                    old(self)@,
                    agent,
                ),
    {
        let ghost before = self@;
        let action = self.announce(
            AgentEventKind::CompactionEnd { outcome: CompactionOutcome::Cancelled },
            CompactionPoint::Cancelled,
        );
        assert forall|agent: AgentModel|
            leaves(self@, agent, action@) == #[trigger] announce_cancellation(before, agent) by {
            let kind = EventKindModel::CompactionEnd { outcome: OutcomeModel::Cancelled };
            assert(leaves(self@, agent, action@) == announce(
                before,
                agent,
                kind,
                CompactionPoint::Cancelled,
            ));
        }
        action
    }

    fn undelivered(&mut self, agent: &mut Agent, error: CoreError) -> (r: CompactionAction)
        requires
            old(self).wf(),
        ensures
            final(self).wf(),
            leaves(final(self)@, final(agent)@, r@) == settle_undelivered(
                old(self)@,
                old(agent)@,
                error@,
            ),
    {
        let ghost before = self@;
        let text = error.text();
        let _ = self.run.fail(agent, text);
        self.point = CompactionPoint::Finished;
        assert(self@ =~= CompactionModel {
            run: self.run@,
            point: CompactionPoint::Finished,
            ..before
        });
        CompactionAction::Done(Err(error))
    }

    fn unexpected(&mut self, agent: &mut Agent) -> (r: CompactionAction)
        requires
            old(self).wf(),
        ensures
            final(self).wf(),
            leaves(final(self)@, final(agent)@, r@) == settle_undelivered(
                old(self)@,
                old(agent)@,
                unexpected(old(self)@),
            ),
    {
        let error = crate::run::transition_error(
            "compaction",
            crate::state::phase_name(self.run.phase()),
            "step",
        );
        self.undelivered(agent, error)
    }

    /// Take a proposal of the compactor.
    fn consider(
        &mut self,
        agent: &mut Agent,
        result: CompactionResult,
        cancelled: bool,
    ) -> (r: CompactionAction)
        requires
            old(self).wf(),
        ensures
            final(self).wf(),
            leaves(final(self)@, final(agent)@, r@) == consider(
                old(self)@,
                old(agent)@,
                result@,
                cancelled,
            ),
    {
        let ghost before = self@;
        let ghost agent_before = agent@;
        if cancelled {
            return self.announce_cancellation();
        }
        match validate_messages(&result.messages) {
            Err(error) => self.announce_failure(error),
            Ok(()) => {
                let owned = match agent.state.phase {
                    AgentPhase::Running(id) => id == self.run.id(),
                    _ => false,
                };
                if !owned {
                    return self.announce_cancellation();
                }
                let retained = result.messages.len();
                agent.state.replace_messages(result.messages);
                self.retained = retained;
                proof {
                    assert(self@ =~= CompactionModel { retained, ..before });
                    assert(agent@ =~= AgentModel {
                        state: agent_before.state.with_replacement(result@.messages),
                        ..agent_before
                    });
                }
                let kind = AgentEventKind::CompactionResult {
                    retained_message_count: retained,
                    usage: result.usage,
                };
                let ghost committed = self@;
                let action = self.announce(kind, CompactionPoint::Replaced);
                assert(leaves(self@, agent@, action@) == announce(
                    committed,
                    agent@,
                    kind@,
                    CompactionPoint::Replaced,
                ));
                action
            },
        }
    }

    /// Go on after a published event.
    fn published(&mut self, agent: &mut Agent, cancelled: bool) -> (r: CompactionAction)
        requires
            old(self).wf(),
        ensures
            final(self).wf(),
            leaves(final(self)@, final(agent)@, r@) == published(
                old(self)@,
                old(agent)@,
                cancelled,
            ),
    {
        let ghost before = self@;
        match self.point {
            CompactionPoint::Started => {
                if cancelled {
                    return self.announce_cancellation();
                }
                self.point = CompactionPoint::Compacting;
                assert(self@ =~= CompactionModel { point: CompactionPoint::Compacting, ..before });
                CompactionAction::Compact(snapshot_context(agent))
            },
            CompactionPoint::Replaced => {
                let outcome = CompactionOutcome::Succeeded {
                    retained_message_count: self.retained,
                };
                let kind = AgentEventKind::CompactionEnd { outcome };
                let action = self.announce(kind, CompactionPoint::Ended);
                assert(leaves(self@, agent@, action@) == announce(
                    before,
                    agent@,
                    kind@,
                    CompactionPoint::Ended,
                ));
                action
            },
            CompactionPoint::Ended => {
                let outcome = self.run.succeed(agent, StopReason::EndTurn);
                self.point = CompactionPoint::Finished;
                assert(self@ =~= CompactionModel {
                    run: self.run@,
                    point: CompactionPoint::Finished,
                    ..before
                });
                CompactionAction::Done(outcome)
            },
            CompactionPoint::Failed => {
                let error = duplicate_opt(&self.error).unwrap();
                let text = error.text();
                let _ = self.run.fail(agent, text);
                self.point = CompactionPoint::Finished;
                assert(self@ =~= CompactionModel {
                    run: self.run@,
                    point: CompactionPoint::Finished,
                    ..before
                });
                CompactionAction::Done(Err(CoreError::Compaction(error)))
            },
            CompactionPoint::Cancelled => {
                let outcome = match self.run.settle_cancelled(agent) {
                    Ok(()) => Err(CoreError::Cancelled),
                    Err(error) => Err(error),
                };
                self.point = CompactionPoint::Finished;
                assert(self@ =~= CompactionModel {
                    run: self.run@,
                    point: CompactionPoint::Finished,
                    ..before
                });
                CompactionAction::Done(outcome)
            },
            _ => self.unexpected(agent),
        }
    }

    /// Take the outcome of the last action and give the next one.
    ///
    /// The event that starts the compaction is published first. The compactor then gets an
    /// owned snapshot; its proposal is validated, committed, and published.
    pub fn step(&mut self, agent: &mut Agent, input: CompactionInput, cancelled: bool) -> (r:
        CompactionAction)
        requires
            old(self).wf(),
        ensures
            final(self).wf(),
            next(old(self)@, old(agent)@, input@, cancelled) == (CompactionNext {
                compaction: final(self)@,
                agent: final(agent)@,
                action: r@,
            }),
    {
        let ghost before = self@;
        match input {
            CompactionInput::Drive => {
                if self.point != CompactionPoint::Created && self.point
                    != CompactionPoint::Finished {
                    return self.unexpected(agent);
                }
                let source_message_count = agent.state.messages.len();
                let kind = AgentEventKind::CompactionStart { source_message_count };
                let action = self.announce(kind, CompactionPoint::Started);
                assert(leaves(self@, agent@, action@) == announce(
                    before,
                    agent@,
                    kind@,
                    CompactionPoint::Started,
                ));
                action
            },
            CompactionInput::Published => self.published(agent, cancelled),
            CompactionInput::Failed(error) => self.undelivered(agent, error),
            CompactionInput::Compacted(outcome) => {
                if self.point != CompactionPoint::Compacting {
                    return self.unexpected(agent);
                }
                match outcome {
                    Ok(result) => self.consider(agent, result, cancelled),
                    Err(error) => self.announce_failure(error),
                }
            },
        }
    }
}

/// What a step leaves.
spec fn leaves(
    compaction: CompactionModel,
    agent: AgentModel,
    action: CompactionActionModel,
) -> CompactionNext {
    CompactionNext { compaction, agent, action }
}

/// The snapshot that a compactor gets.
fn snapshot_context(agent: &Agent) -> (r: CompactionContext)
    ensures
        r@ == snapshot_of(agent@),
{
    CompactionContext {
        version: COMPACTION_CONTEXT_VERSION,
        system_prompt: agent.state.system_prompt.clone(),
        model: duplicate_opt(&agent.state.model),
        messages: duplicate_all(&agent.state.messages),
        host_messages: duplicate_all(&agent.state.host_messages),
    }
}

/// The agent after a compaction took it.
pub open spec fn reserved(agent: AgentModel) -> AgentModel {
    let id = upcoming_run(agent);
    AgentModel {
        state: AgentStateModel {
            phase: AgentPhase::Running(id),
            last_error: None,
            partial_response: None,
            is_streaming: false,
            pending_tool_calls: Set::empty(),
            ..agent.state
        },
        active_run: Some(id),
        ..counted(agent)
    }
}

impl Agent {
    /// Reserve an idle agent for a caller-driven manual compaction operation.
    ///
    /// Active and cancelling agents are refused without changing their state. An agent without
    /// an explicit compactor also refuses the request.
    pub fn start_compaction(&mut self) -> (r: Result<CompactionHandle, CoreError>)
        ensures
            ({
                let agent = old(self)@;
                if owner(agent.state.phase) is Some {
                    r matches Err(e) && e@ == refusal(agent) && final(self)@ == counted(agent)
                } else if !agent.compactor {
                    r matches Err(e) && e@ == CoreErrorModel::MissingCompactor && final(self)@
                        == counted(agent)
                } else {
                    &&& r matches Ok(handle)
                    &&& handle.wf()
                    &&& handle@ == CompactionModel::created(upcoming_run(agent))
                    &&& final(self)@ == reserved(agent)
                }
            }),
    {
        let run_id = self.count_run();
        if let Some(active) = self.owner_run() {
            return Err(CoreError::ActiveRun { run_id: active });
        }
        if !self.compactor {
            return Err(CoreError::MissingCompactor);
        }
        self.state.phase = AgentPhase::Running(run_id);
        self.state.last_error = None;
        self.state.partial_response = None;
        self.state.is_streaming = false;
        self.state.pending_tool_calls.clear();
        self.active_run = Some(run_id);
        let run = RunHandle::reserved(run_id);
        let handle = CompactionHandle {
            run,
            point: CompactionPoint::Created,
            retained: 0,
            error: None,
        };
        proof {
            assert(self@ =~= reserved(old(self)@));
            assert(handle@ =~= CompactionModel::created(run_id));
        }
        Ok(handle)
    }
}

} // verus!
