//! Scheduling seams and deterministic tool ordering.
//!
//! The scheduler plans work but creates no threads, executor, or background task. For parallel
//! batches, calls are prepared in assistant/source order, completions are emitted in actual
//! completion order, and context results are recovered in source order.

use crate::error::SchedulerError;
use crate::model::{duplicate_all, duplicate_opt, Duplicate};
use crate::state::{
    AssistantToolCall, CallModel, ModelDescriptor, ModelDescriptorModel, StopReason, ThinkingLevel,
    ToolCallId, Usage, UsageModel,
};
use crate::tool::{
    DefinitionModel, ToolCall, ToolDefinition, ToolExecutionMode, ToolResult, ToolResultModel,
};
use vstd::prelude::*;

verus! {

broadcast use crate::model::group_views;

/// Provider request assembled by the core.
#[derive(Clone, Debug, PartialEq)]
pub struct ModelRequest {
    /// System instructions that remain separate from conversation messages.
    pub system_prompt: String,
    /// Serialized conversation/context envelope.
    pub context: String,
    /// Prompt-facing executable capabilities in registry/source order.
    pub tools: Vec<ToolDefinition>,
    /// Model selected for this request.
    pub model: Option<ModelDescriptor>,
    /// Reasoning level selected for this request.
    pub thinking_level: ThinkingLevel,
}

/// Model of a [`ModelRequest`].
#[verifier::ext_equal]
pub struct RequestModel {
    pub system_prompt: Seq<char>,
    pub context: Seq<char>,
    pub tools: Seq<DefinitionModel>,
    pub model: Option<ModelDescriptorModel>,
    pub thinking_level: ThinkingLevel,
}

impl View for ModelRequest {
    type V = RequestModel;

    open spec fn view(&self) -> RequestModel {
        RequestModel {
            system_prompt: self.system_prompt@,
            context: self.context@,
            tools: crate::model::views(self.tools@),
            model: crate::model::opt_view(self.model),
            thinking_level: self.thinking_level,
        }
    }
}

impl Default for ModelRequest {
    fn default() -> (r: Self)
        ensures
            r@ == (RequestModel {
                system_prompt: Seq::empty(),
                context: Seq::empty(),
                tools: Seq::empty(),
                model: None,
                thinking_level: ThinkingLevel::Default,
            }),
    {
        let r = ModelRequest {
            system_prompt: String::new(),
            context: String::new(),
            tools: Vec::new(),
            model: None,
            thinking_level: ThinkingLevel::Default,
        };
        assert(r@ =~= (RequestModel {
            system_prompt: Seq::empty(),
            context: Seq::empty(),
            tools: Seq::empty(),
            model: None,
            thinking_level: ThinkingLevel::Default,
        }));
        r
    }
}

impl Duplicate for ModelRequest {
    fn duplicate(&self) -> (r: Self) {
        ModelRequest {
            system_prompt: self.system_prompt.clone(),
            context: self.context.clone(),
            tools: duplicate_all(&self.tools),
            model: duplicate_opt(&self.model),
            thinking_level: self.thinking_level,
        }
    }
}

/// Provider events consumed by the run loop.
#[derive(Clone, Debug, Eq, PartialEq)]
pub enum ModelStreamEvent {
    /// Incremental assistant text.
    TextDelta(String),
    /// A complete assistant tool call.
    ToolCall(AssistantToolCall),
    /// Provider usage update.
    Usage(Usage),
    /// The provider failed.
    Error { message: String },
    /// The provider aborted its response.
    Aborted { message: String },
    /// Normal stream settlement.
    End(StopReason),
}

/// Model of a [`ModelStreamEvent`].
#[verifier::ext_equal]
pub enum StreamEventModel {
    TextDelta(Seq<char>),
    ToolCall(CallModel),
    Usage(UsageModel),
    Error { message: Seq<char> },
    Aborted { message: Seq<char> },
    End(StopReason),
}

impl View for ModelStreamEvent {
    type V = StreamEventModel;

    open spec fn view(&self) -> StreamEventModel {
        match *self {
            ModelStreamEvent::TextDelta(delta) => StreamEventModel::TextDelta(delta@),
            ModelStreamEvent::ToolCall(call) => StreamEventModel::ToolCall(call@),
            ModelStreamEvent::Usage(usage) => StreamEventModel::Usage(usage@),
            ModelStreamEvent::Error { message } => StreamEventModel::Error { message: message@ },
            ModelStreamEvent::Aborted { message } => StreamEventModel::Aborted {
                message: message@,
            },
            ModelStreamEvent::End(reason) => StreamEventModel::End(reason),
        }
    }
}

impl Duplicate for ModelStreamEvent {
    fn duplicate(&self) -> (r: Self) {
        match self {
            ModelStreamEvent::TextDelta(delta) => ModelStreamEvent::TextDelta(delta.clone()),
            ModelStreamEvent::ToolCall(call) => ModelStreamEvent::ToolCall(call.duplicate()),
            ModelStreamEvent::Usage(usage) => ModelStreamEvent::Usage(usage.duplicate()),
            ModelStreamEvent::Error { message } => ModelStreamEvent::Error {
                message: message.clone(),
            },
            ModelStreamEvent::Aborted { message } => ModelStreamEvent::Aborted {
                message: message.clone(),
            },
            ModelStreamEvent::End(reason) => ModelStreamEvent::End(*reason),
        }
    }
}

/// A finite provider event stream.
#[derive(Clone, Debug, Eq, PartialEq)]
pub struct ModelStream {
    /// Events in provider order.
    pub events: Vec<ModelStreamEvent>,
}

impl View for ModelStream {
    type V = Seq<StreamEventModel>;

    open spec fn view(&self) -> Seq<StreamEventModel> {
        crate::model::views(self.events@)
    }
}

impl Duplicate for ModelStream {
    fn duplicate(&self) -> (r: Self) {
        ModelStream { events: crate::model::duplicate_all(&self.events) }
    }
}

impl Default for ModelStream {
    fn default() -> (r: Self)
        ensures
            r.events@ == Seq::<ModelStreamEvent>::empty(),
    {
        ModelStream { events: Vec::new() }
    }
}

/// One source-ordered tool call and its scheduler policy.
#[derive(Clone, Debug, Eq, PartialEq)]
pub struct PlannedToolCall {
    /// Zero-based source index in the assistant message.
    pub source_index: usize,
    /// Call payload.
    pub call: ToolCall,
    /// Registered execution policy.
    pub execution_mode: ToolExecutionMode,
}

/// Model of a [`PlannedToolCall`].
#[verifier::ext_equal]
pub struct PlannedModel {
    pub source_index: usize,
    pub call: CallModel,
    pub execution_mode: ToolExecutionMode,
}

impl View for PlannedToolCall {
    type V = PlannedModel;

    open spec fn view(&self) -> PlannedModel {
        PlannedModel {
            source_index: self.source_index,
            call: self.call@,
            execution_mode: self.execution_mode,
        }
    }
}

/// A planned assistant tool batch.
#[derive(Clone, Debug, Eq, PartialEq)]
pub struct ToolBatch {
    /// Calls in assistant/source order.
    pub calls: Vec<PlannedToolCall>,
}

impl Default for ToolBatch {
    fn default() -> (r: Self)
        ensures
            r.calls@ == Seq::<PlannedToolCall>::empty(),
    {
        ToolBatch { calls: Vec::new() }
    }
}

impl View for ToolBatch {
    type V = Seq<PlannedModel>;

    open spec fn view(&self) -> Seq<PlannedModel> {
        crate::model::views(self.calls@)
    }
}

/// Whether a batch holds a call with an identifier.
pub open spec fn plans(batch: Seq<PlannedModel>, id: Seq<char>) -> bool {
    exists|i: int| 0 <= i < batch.len() && (#[trigger] batch[i]).call.id == id
}

impl ToolBatch {
    /// Prepare calls in source order. Actual execution is deliberately separate.
    pub fn prepare(calls: Vec<(ToolCall, ToolExecutionMode)>) -> (r: Self)
        ensures
            r@.len() == calls@.len(),
            forall|i: int|
                0 <= i < r@.len() ==> #[trigger] r@[i] == (PlannedModel {
                    source_index: i as usize,
                    call: calls@[i].0@,
                    execution_mode: calls@[i].1,
                }),
    {
        let mut planned: Vec<PlannedToolCall> = Vec::new();
        let mut i: usize = 0;
        while i < calls.len()
            invariant
                i <= calls@.len(),
                planned@.len() == i,
                forall|j: int|
                    0 <= j < i ==> (#[trigger] planned@[j])@ == (PlannedModel {
                        source_index: j as usize,
                        call: calls@[j].0@,
                        execution_mode: calls@[j].1,
                    }),
            decreases calls.len() - i,
        {
            planned.push(
                PlannedToolCall {
                    source_index: i,
                    call: calls[i].0.duplicate(),
                    execution_mode: calls[i].1,
                },
            );
            i = i + 1;
        }
        ToolBatch { calls: planned }
    }

    /// Record a completion into a source-order result set.
    pub fn record_completion(&self, results: &mut CompletionSet, result: ToolResult) -> (r: Result<
        (),
        SchedulerError,
    >)
        requires
            old(results).wf(),
        ensures
            final(results).wf(),
            final(results)@.dom().finite(),
            final(results)@.len() == old(results)@.len() + (if r is Ok {
                1nat
            } else {
                0nat
            }),
            match r {
                Err(SchedulerError::UnknownToolCall { tool_call_id }) => {
                    &&& !plans(self@, result@.tool_call_id)
                    &&& tool_call_id@ == result@.tool_call_id
                    &&& final(results)@ == old(results)@
                },
                Err(SchedulerError::DuplicateCompletion { tool_call_id }) => {
                    &&& plans(self@, result@.tool_call_id)
                    &&& old(results)@.contains_key(result@.tool_call_id)
                    &&& tool_call_id@ == result@.tool_call_id
                    &&& final(results)@ == old(results)@.insert(result@.tool_call_id, result@)
                },
                Ok(()) => {
                    &&& plans(self@, result@.tool_call_id)
                    &&& !old(results)@.contains_key(result@.tool_call_id)
                    &&& final(results)@ == old(results)@.insert(result@.tool_call_id, result@)
                },
            },
    {
        proof {
            lemma_keyed(crate::model::views(results.results@));
        }
        let mut i: usize = 0;
        while i < self.calls.len()
            invariant
                i <= self.calls@.len(),
                *results == *old(results),
                results@.dom().finite(),
                results.wf(),
                forall|j: int|
                    0 <= j < i ==> (#[trigger] self.calls@[j]).call.id@ != result.tool_call_id@,
            decreases self.calls.len() - i,
        {
            if self.calls[i].call.id.equals(&result.tool_call_id) {
                assert(self@[i as int].call.id == result@.tool_call_id);
                return results.insert(result);
            }
            i = i + 1;
        }
        assert forall|j: int| 0 <= j < self@.len() implies (#[trigger] self@[j]).call.id
            != result@.tool_call_id by {
            assert(self@[j] == self.calls@[j]@);
        }
        Err(SchedulerError::UnknownToolCall { tool_call_id: result.tool_call_id })
    }
}

/// Tool completions keyed by call identifier and emitted in source order when settled.
#[derive(Clone, Debug, Eq, PartialEq)]
pub struct CompletionSet {
    results: Vec<ToolResult>,
}

/// The map that a sequence of results with distinct identifiers defines.
spec fn keyed(results: Seq<ToolResultModel>) -> Map<Seq<char>, ToolResultModel>
    decreases results.len(),
{
    if results.len() == 0 {
        Map::empty()
    } else {
        keyed(results.drop_last()).insert(results.last().tool_call_id, results.last())
    }
}

spec fn distinct_ids(results: Seq<ToolResultModel>) -> bool {
    forall|i: int, j: int|
        0 <= i < j < results.len() ==> (#[trigger] results[i]).tool_call_id != (
        #[trigger] results[j]).tool_call_id
}

proof fn lemma_keyed(results: Seq<ToolResultModel>)
    requires
        distinct_ids(results),
    ensures
        forall|i: int|
            0 <= i < results.len() ==> keyed(results).contains_key(
                (#[trigger] results[i]).tool_call_id,
            ) && keyed(results)[results[i].tool_call_id] == results[i],
        forall|id: Seq<char>| #[trigger]
            keyed(results).contains_key(id) ==> exists|i: int|
                0 <= i < results.len() && (#[trigger] results[i]).tool_call_id == id,
        keyed(results).dom().finite(),
        keyed(results).len() == results.len(),
    decreases results.len(),
{
    if results.len() > 0 {
        let rest = results.drop_last();
        assert(distinct_ids(rest)) by {
            assert forall|i: int, j: int| 0 <= i < j < rest.len() implies (
            #[trigger] rest[i]).tool_call_id != (#[trigger] rest[j]).tool_call_id by {
                assert(rest[i] == results[i] && rest[j] == results[j]);
            }
        }
        lemma_keyed(rest);
        assert forall|i: int| 0 <= i < results.len() implies keyed(results).contains_key(
            (#[trigger] results[i]).tool_call_id,
        ) && keyed(results)[results[i].tool_call_id] == results[i] by {
            if i < rest.len() {
                assert(rest[i] == results[i]);
            }
        }
        assert forall|id: Seq<char>| #[trigger] keyed(results).contains_key(id) implies exists|
            i: int,
        |
            0 <= i < results.len() && (#[trigger] results[i]).tool_call_id == id by {
            if keyed(rest).contains_key(id) {
                let i = choose|i: int|
                    0 <= i < rest.len() && (#[trigger] rest[i]).tool_call_id == id;
                assert(results[i] == rest[i]);
            } else {
                assert(results[results.len() - 1].tool_call_id == id);
            }
        }
        assert(!keyed(rest).contains_key(results.last().tool_call_id)) by {
            if keyed(rest).contains_key(results.last().tool_call_id) {
                let i = choose|i: int|
                    0 <= i < rest.len() && (#[trigger] rest[i]).tool_call_id
                        == results.last().tool_call_id;
                assert(results[i] == rest[i]);
                assert(results[i].tool_call_id != results[results.len() - 1].tool_call_id);
            }
        }
    }
}

impl View for CompletionSet {
    type V = Map<Seq<char>, ToolResultModel>;

    closed spec fn view(&self) -> Map<Seq<char>, ToolResultModel> {
        keyed(crate::model::views(self.results@))
    }
}

impl Default for CompletionSet {
    fn default() -> (r: Self)
        ensures
            r@ == Map::<Seq<char>, ToolResultModel>::empty(),
            r.wf(),
    {
        CompletionSet { results: Vec::new() }
    }
}

/// The results of the planned calls that have one, in source order.
pub open spec fn source_ordered(
    batch: Seq<PlannedModel>,
    results: Map<Seq<char>, ToolResultModel>,
) -> Seq<ToolResultModel>
    decreases batch.len(),
{
    if batch.len() == 0 {
        Seq::empty()
    } else {
        let rest = source_ordered(batch.drop_last(), results);
        if results.contains_key(batch.last().call.id) {
            rest.push(results[batch.last().call.id])
        } else {
            rest
        }
    }
}

/// Results come out in source order whatever the order of completion: recording two calls the
/// one way round or the other leaves the same results.
pub proof fn law_completion_order_is_irrelevant(
    batch: Seq<PlannedModel>,
    results: Map<Seq<char>, ToolResultModel>,
    first: ToolResultModel,
    second: ToolResultModel,
)
    requires
        first.tool_call_id != second.tool_call_id,
    ensures
        source_ordered(
            batch,
            results.insert(first.tool_call_id, first).insert(second.tool_call_id, second),
        ) == source_ordered(
            batch,
            results.insert(second.tool_call_id, second).insert(first.tool_call_id, first),
        ),
{
    assert(results.insert(first.tool_call_id, first).insert(second.tool_call_id, second)
        =~= results.insert(second.tool_call_id, second).insert(first.tool_call_id, first));
}

/// Once every planned call has a result, the results stand one for one in source order.
pub proof fn law_complete_batch_keeps_source_order(
    batch: Seq<PlannedModel>,
    results: Map<Seq<char>, ToolResultModel>,
)
    requires
        forall|i: int|
            0 <= i < batch.len() ==> results.contains_key((#[trigger] batch[i]).call.id),
    ensures
        source_ordered(batch, results).len() == batch.len(),
        forall|i: int|
            0 <= i < batch.len() ==> #[trigger] source_ordered(batch, results)[i]
                == results[batch[i].call.id],
    decreases batch.len(),
{
    if batch.len() > 0 {
        let rest = batch.drop_last();
        assert forall|i: int| 0 <= i < rest.len() implies results.contains_key(
            (#[trigger] rest[i]).call.id,
        ) by {
            assert(rest[i] == batch[i]);
        }
        law_complete_batch_keeps_source_order(rest, results);
        assert(results.contains_key(batch[batch.len() - 1].call.id));
        assert forall|i: int| 0 <= i < batch.len() implies #[trigger] source_ordered(
            batch,
            results,
        )[i] == results[batch[i].call.id] by {
            if i < rest.len() {
                assert(source_ordered(rest, results)[i] == results[rest[i].call.id]);
            }
        }
    }
}

impl CompletionSet {
    /// No call has two results.
    pub closed spec fn wf(self) -> bool {
        distinct_ids(crate::model::views(self.results@))
    }

    fn insert(&mut self, result: ToolResult) -> (r: Result<(), SchedulerError>)
        requires
            old(self).wf(),
        ensures
            final(self).wf(),
            final(self)@ == old(self)@.insert(result@.tool_call_id, result@),
            r is Ok <==> !old(self)@.contains_key(result@.tool_call_id),
            r matches Err(e) ==> (e matches SchedulerError::DuplicateCompletion { tool_call_id }
                && tool_call_id@ == result@.tool_call_id),
    {
        let ghost before = crate::model::views(self.results@);
        proof {
            lemma_keyed(before);
        }
        let mut i: usize = 0;
        while i < self.results.len()
            invariant
                i <= self.results@.len(),
                before == crate::model::views(self.results@),
                distinct_ids(before),
                self@ == keyed(before),
                old(self)@ == keyed(before),
                forall|j: int|
                    0 <= j < i ==> (#[trigger] before[j]).tool_call_id != result@.tool_call_id,
            decreases self.results.len() - i,
        {
            assert(before[i as int] == self.results@[i as int]@);
            if self.results[i].tool_call_id.equals(&result.tool_call_id) {
                let tool_call_id = result.tool_call_id.duplicate();
                self.results[i] = result;
                proof {
                    let after = crate::model::views(self.results@);
                    assert(after =~= before.update(i as int, result@));
                    assert forall|a: int, b: int| 0 <= a < b < after.len() implies (
                    #[trigger] after[a]).tool_call_id != (#[trigger] after[b]).tool_call_id by {
                        assert(before[a].tool_call_id != before[b].tool_call_id);
                    }
                    lemma_keyed(before);
                    lemma_keyed(after);
                    lemma_same_keys(before, after, i as int, result@);
                }
                return Err(SchedulerError::DuplicateCompletion { tool_call_id });
            }
            i = i + 1;
        }
        proof {
            assert(!keyed(before).contains_key(result@.tool_call_id)) by {
                if keyed(before).contains_key(result@.tool_call_id) {
                    let k = choose|k: int|
                        0 <= k < before.len() && (#[trigger] before[k]).tool_call_id
                            == result@.tool_call_id;
                    assert(before[k].tool_call_id != result@.tool_call_id);
                }
            }
        }
        self.results.push(result);
        assert(crate::model::views(self.results@).drop_last() =~= before);
        Ok(())
    }

    /// Return settled results in assistant/source order, excluding incomplete calls.
    pub fn in_source_order(&self, batch: &ToolBatch) -> (r: Vec<ToolResult>)
        requires
            self.wf(),
        ensures
            crate::model::views(r@) == source_ordered(batch@, self@),
    {
        let mut out: Vec<ToolResult> = Vec::new();
        let mut i: usize = 0;
        assert(batch@.take(0) =~= Seq::<PlannedModel>::empty());
        while i < batch.calls.len()
            invariant
                i <= batch.calls@.len(),
                self.wf(),
                crate::model::views(out@) == source_ordered(batch@.take(i as int), self@),
            decreases batch.calls.len() - i,
        {
            proof {
                assert(batch@.take(i + 1).drop_last() =~= batch@.take(i as int));
                assert(batch@.take(i + 1).last() == batch.calls@[i as int]@);
            }
            if let Some(result) = self.find(&batch.calls[i].call.id) {
                out.push(result.duplicate());
            }
            i = i + 1;
        }
        assert(batch@.take(i as int) =~= batch@);
        out
    }

    fn find(&self, id: &ToolCallId) -> (r: Option<&ToolResult>)
        requires
            self.wf(),
        ensures
            match r {
                Some(result) => self@.contains_key(id@) && self@[id@] == result@,
                None => !self@.contains_key(id@),
            },
    {
        let ghost all = crate::model::views(self.results@);
        proof {
            lemma_keyed(all);
        }
        let mut i: usize = 0;
        while i < self.results.len()
            invariant
                i <= self.results@.len(),
                all == crate::model::views(self.results@),
                distinct_ids(all),
                forall|j: int| 0 <= j < i ==> (#[trigger] all[j]).tool_call_id != id@,
            decreases self.results.len() - i,
        {
            assert(all[i as int] == self.results@[i as int]@);
            if self.results[i].tool_call_id.equals(id) {
                proof {
                    lemma_keyed(all);
                }
                return Some(&self.results[i]);
            }
            i = i + 1;
        }
        proof {
            lemma_keyed(all);
            if keyed(all).contains_key(id@) {
                let k = choose|k: int|
                    0 <= k < all.len() && (#[trigger] all[k]).tool_call_id == id@;
                assert(all[k].tool_call_id != id@);
            }
        }
        None
    }

    /// Number of completed calls.
    pub fn len(&self) -> (r: usize)
        requires
            self.wf(),
        ensures
            r == self@.len(),
            self@.dom().finite(),
    {
        proof {
            lemma_keyed(crate::model::views(self.results@));
        }
        self.results.len()
    }

    /// Whether no calls have completed.
    pub fn is_empty(&self) -> (r: bool)
        requires
            self.wf(),
        ensures
            r == (self@ == Map::<Seq<char>, ToolResultModel>::empty()),
    {
        proof {
            let all = crate::model::views(self.results@);
            lemma_keyed(all);
            if all.len() > 0 {
                assert(keyed(all).contains_key(all[0].tool_call_id));
            }
        }
        self.results.len() == 0
    }
}

proof fn lemma_same_keys(
    before: Seq<ToolResultModel>,
    after: Seq<ToolResultModel>,
    i: int,
    result: ToolResultModel,
)
    requires
        distinct_ids(before),
        distinct_ids(after),
        0 <= i < before.len(),
        before[i].tool_call_id == result.tool_call_id,
        after == before.update(i, result),
    ensures
        keyed(after) == keyed(before).insert(result.tool_call_id, result),
{
    lemma_keyed(before);
    lemma_keyed(after);
    let left = keyed(after);
    let right = keyed(before).insert(result.tool_call_id, result);
    assert forall|id: Seq<char>| left.contains_key(id) <==> right.contains_key(id) by {
        if left.contains_key(id) {
            let k = choose|k: int| 0 <= k < after.len() && (#[trigger] after[k]).tool_call_id == id;
            assert(before[k].tool_call_id == id);
        }
        if keyed(before).contains_key(id) {
            let k = choose|k: int|
                0 <= k < before.len() && (#[trigger] before[k]).tool_call_id == id;
            assert(after[k].tool_call_id == id);
        }
        assert(after[i].tool_call_id == result.tool_call_id);
    }
    assert forall|id: Seq<char>| #[trigger] left.contains_key(id) implies left[id] == right[id] by {
        let k = choose|k: int| 0 <= k < after.len() && (#[trigger] after[k]).tool_call_id == id;
        if k != i {
            assert(after[k] == before[k]);
            assert(before[k].tool_call_id != before[i].tool_call_id);
        }
    }
    assert(left =~= right);
}

/// Stateless planning facade kept separate from agent ownership.
#[derive(Clone, Copy, Debug)]
pub struct Scheduler;

impl Scheduler {
    /// Build a source-ordered batch. The caller decides which allowed calls to execute
    /// concurrently and reports completions through [`ToolBatch::record_completion`].
    pub fn plan_tool_batch(&self, calls: Vec<(ToolCall, ToolExecutionMode)>) -> (r: ToolBatch)
        ensures
            r@.len() == calls@.len(),
            forall|i: int|
                0 <= i < r@.len() ==> #[trigger] r@[i] == (PlannedModel {
                    source_index: i as usize,
                    call: calls@[i].0@,
                    execution_mode: calls@[i].1,
                }),
    {
        ToolBatch::prepare(calls)
    }
}

} // verus!
