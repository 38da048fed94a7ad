//! Adapter from lifecycle events to a compact trace.
//!
//! A [`TraceObserver`] consumes events after the run has applied them, and gives the records of
//! one linear episode, which the host appends to its sink. It owns no clock, executor, task, or
//! runtime state transition. A failing sink is counted, and cannot change the agent result.

use crate::event::{AgentEvent, AgentEventKind, EventKindModel};
use crate::model::Duplicate;
use crate::state::{saturating_sum, Message, MessageId, MessageModel, StopReason, ToolCallId};
use crate::text::same;
use vstd::prelude::*;

verus! {

broadcast use crate::model::group_views;

/// How an episode ended.
#[derive(Clone, Copy, Debug, Eq, PartialEq, Structural)]
pub enum EndReason {
    /// The last turn ended normally.
    Completed,
    /// The provider aborted the last turn.
    Aborted,
    /// The host cancelled the run.
    Cancelled,
    /// The run failed.
    Failed,
}

/// One settled tool call.
#[derive(Clone, Debug, Eq, PartialEq)]
pub struct TraceTool {
    /// Index of the turn that requested the call.
    pub turn_index: u32,
    /// Identifier of the call.
    pub call_id: String,
    /// Name of the tool.
    pub name: String,
    /// Input of the tool. Arguments are not recorded.
    pub input: String,
    /// Result of a successful call.
    pub output: Option<String>,
    /// Result of a failed call.
    pub error: Option<String>,
}

/// Model of a [`TraceTool`].
#[verifier::ext_equal]
pub struct TraceToolModel {
    pub turn_index: u32,
    pub call_id: Seq<char>,
    pub name: Seq<char>,
    pub input: Seq<char>,
    pub output: Option<Seq<char>>,
    pub error: Option<Seq<char>>,
}

impl View for TraceTool {
    type V = TraceToolModel;

    open spec fn view(&self) -> TraceToolModel {
        TraceToolModel {
            turn_index: self.turn_index,
            call_id: self.call_id@,
            name: self.name@,
            input: self.input@,
            output: crate::model::opt_view(self.output),
            error: crate::model::opt_view(self.error),
        }
    }
}

/// One settled turn.
#[derive(Clone, Debug, Eq, PartialEq)]
pub struct TraceTurn {
    /// Index of the turn, from zero.
    pub index: u32,
    /// User input of the turn, one message per line.
    pub input: String,
    /// Last assistant text of the turn.
    pub output: Option<String>,
    /// Why the turn ended.
    pub stop_reason: Option<&'static str>,
}

/// Model of a [`TraceTurn`].
#[verifier::ext_equal]
pub struct TraceTurnModel {
    pub index: u32,
    pub input: Seq<char>,
    pub output: Option<Seq<char>>,
    pub stop_reason: Option<Seq<char>>,
}

impl View for TraceTurn {
    type V = TraceTurnModel;

    open spec fn view(&self) -> TraceTurnModel {
        TraceTurnModel {
            index: self.index,
            input: self.input@,
            output: crate::model::opt_view(self.output),
            stop_reason: match self.stop_reason {
                Some(name) => Some(name@),
                None => None,
            },
        }
    }
}

/// One record of an episode.
#[derive(Clone, Debug, Eq, PartialEq)]
pub enum TraceEvent {
    /// The episode began.
    EpisodeHeader { episode_id: String },
    /// A tool call settled.
    Tool(TraceTool),
    /// A turn settled.
    Turn(TraceTurn),
    /// The episode ended.
    EpisodeEnd { reason: EndReason, error: Option<String> },
}

/// Model of a [`TraceEvent`].
#[verifier::ext_equal]
pub enum TraceEventModel {
    EpisodeHeader { episode_id: Seq<char> },
    Tool(TraceToolModel),
    Turn(TraceTurnModel),
    EpisodeEnd { reason: EndReason, error: Option<Seq<char>> },
}

impl View for TraceEvent {
    type V = TraceEventModel;

    open spec fn view(&self) -> TraceEventModel {
        match *self {
            TraceEvent::EpisodeHeader { episode_id } => TraceEventModel::EpisodeHeader {
                episode_id: episode_id@,
            },
            TraceEvent::Tool(tool) => TraceEventModel::Tool(tool@),
            TraceEvent::Turn(turn) => TraceEventModel::Turn(turn@),
            TraceEvent::EpisodeEnd { reason, error } => TraceEventModel::EpisodeEnd {
                reason,
                error: crate::model::opt_view(error),
            },
        }
    }
}

/// A turn that did not end yet.
#[derive(Debug)]
pub struct PendingTurn {
    index: u32,
    input: String,
    output: Option<String>,
    last_input_message: Option<MessageId>,
}

/// Model of a [`PendingTurn`].
#[verifier::ext_equal]
pub struct PendingTurnModel {
    pub index: u32,
    pub input: Seq<char>,
    pub output: Option<Seq<char>>,
    pub last_input_message: Option<MessageId>,
}

impl View for PendingTurn {
    type V = PendingTurnModel;

    closed spec fn view(&self) -> PendingTurnModel {
        PendingTurnModel {
            index: self.index,
            input: self.input@,
            output: crate::model::opt_view(self.output),
            last_input_message: self.last_input_message,
        }
    }
}

/// An observer that records a compact linear trace episode.
///
/// One observer may be attached to an agent and reused for several runs. A new
/// [`AgentEventKind::AgentStart`] starts a new episode. The episode identifier is supplied by
/// the host, which owns session and persistence identity.
#[derive(Debug)]
pub struct TraceObserver {
    episode_id: String,
    current_turn: Option<PendingTurn>,
    pending_tools: Vec<TraceTool>,
    end_reason: EndReason,
    error: Option<String>,
    failed: u64,
}

/// Model of a [`TraceObserver`].
#[verifier::ext_equal]
pub struct TraceModel {
    pub episode_id: Seq<char>,
    pub turn: Option<PendingTurnModel>,
    pub tools: Seq<TraceToolModel>,
    pub end_reason: EndReason,
    pub error: Option<Seq<char>>,
    pub failed: u64,
}

impl View for TraceObserver {
    type V = TraceModel;

    closed spec fn view(&self) -> TraceModel {
        TraceModel {
            episode_id: self.episode_id@,
            turn: crate::model::opt_view(self.current_turn),
            tools: crate::model::views(self.pending_tools@),
            end_reason: self.end_reason,
            error: crate::model::opt_view(self.error),
            failed: self.failed,
        }
    }
}

/// The index of a turn: turns count from one, their indices from zero.
pub open spec fn turn_index(turn_id: u64) -> u32 {
    if turn_id == 0 {
        0
    } else if turn_id - 1 > u32::MAX {
        u32::MAX
    } else {
        (turn_id - 1) as u32
    }
}

/// The name of a stop reason in a trace.
pub open spec fn reason_name(reason: StopReason) -> Seq<char> {
    match reason {
        StopReason::EndTurn => "end_turn"@,
        StopReason::ToolUse => "tool_use"@,
        StopReason::Length => "length"@,
        StopReason::Aborted => "aborted"@,
        StopReason::Cancelled => "cancelled"@,
        StopReason::Error => "error"@,
    }
}

/// How an episode ends after a turn with a stop reason.
pub open spec fn episode_end(reason: StopReason) -> EndReason {
    match reason {
        StopReason::EndTurn | StopReason::ToolUse | StopReason::Length => EndReason::Completed,
        StopReason::Aborted => EndReason::Aborted,
        StopReason::Cancelled => EndReason::Cancelled,
        StopReason::Error => EndReason::Failed,
    }
}

/// The pending calls without those of one identifier.
pub open spec fn without(tools: Seq<TraceToolModel>, id: Seq<char>) -> Seq<TraceToolModel> {
    tools.filter(|tool: TraceToolModel| tool.call_id != id)
}

/// The pending call with an identifier.
pub open spec fn pending(tools: Seq<TraceToolModel>, id: Seq<char>) -> Option<TraceToolModel>
    decreases tools.len(),
{
    if tools.len() == 0 {
        None
    } else if tools.last().call_id == id {
        Some(tools.last())
    } else {
        pending(tools.drop_last(), id)
    }
}

/// A call that did not settle yet.
pub open spec fn opened(index: u32, id: Seq<char>, name: Seq<char>) -> TraceToolModel {
    TraceToolModel {
        turn_index: index,
        call_id: id,
        name,
        input: ""@,
        output: None,
        error: None,
    }
}

/// A turn that did not see a message yet.
pub open spec fn fresh_turn(turn_id: u64) -> PendingTurnModel {
    PendingTurnModel {
        index: turn_index(turn_id),
        input: ""@,
        output: None,
        last_input_message: None,
    }
}

impl PendingTurnModel {
    /// The turn after a message: user input is collected once per message, the last assistant
    /// text stands for the output.
    pub open spec fn with_message(self, message: MessageModel) -> PendingTurnModel {
        match message {
            MessageModel::User { id, content } => if self.last_input_message == Some(id) {
                self
            } else {
                PendingTurnModel {
                    input: if self.input.len() == 0 {
                        content
                    } else {
                        self.input + "\n"@ + content
                    },
                    last_input_message: Some(id),
                    ..self
                }
            },
            MessageModel::Assistant { content, .. } => PendingTurnModel {
                output: Some(content),
                ..self
            },
            MessageModel::ToolResult { .. } => self,
        }
    }
}

impl TraceModel {
    /// The index of the current turn, or zero between turns.
    pub open spec fn index(self) -> u32 {
        match self.turn {
            Some(turn) => turn.index,
            None => 0,
        }
    }

    /// The observer after a message.
    pub open spec fn with_message(self, message: MessageModel) -> TraceModel {
        TraceModel {
            error: match message {
                MessageModel::Assistant { error_message, .. } => error_message,
                _ => self.error,
            },
            turn: match self.turn {
                Some(turn) => Some(turn.with_message(message)),
                None => None,
            },
            ..self
        }
    }

    /// The observer after an event.
    pub open spec fn after(self, kind: EventKindModel) -> TraceModel {
        match kind {
            EventKindModel::AgentStart => TraceModel {
                turn: None,
                tools: Seq::empty(),
                end_reason: EndReason::Completed,
                error: None,
                ..self
            },
            EventKindModel::TurnStart { turn_id } => TraceModel {
                turn: Some(fresh_turn(turn_id.0)),
                ..self
            },
            EventKindModel::MessageStart { message } => self.with_message(message),
            EventKindModel::MessageUpdate { message, .. } => self.with_message(message),
            EventKindModel::MessageEnd { message } => self.with_message(message),
            EventKindModel::ToolExecutionStart { tool_call_id, tool_name, .. } => TraceModel {
                tools: without(self.tools, tool_call_id).push(
                    opened(self.index(), tool_call_id, tool_name),
                ),
                ..self
            },
            EventKindModel::ToolExecutionEnd { tool_call_id, .. } => TraceModel {
                tools: without(self.tools, tool_call_id),
                ..self
            },
            EventKindModel::TurnEnd { reason, .. } => TraceModel {
                turn: None,
                end_reason: episode_end(reason),
                ..self
            },
            _ => self,
        }
    }

    /// The record that an event gives.
    pub open spec fn record(self, kind: EventKindModel) -> Option<TraceEventModel> {
        match kind {
            EventKindModel::AgentStart => Some(
                TraceEventModel::EpisodeHeader { episode_id: self.episode_id },
            ),
            EventKindModel::ToolExecutionEnd { tool_call_id, tool_name, result } => {
                let tool = match pending(self.tools, tool_call_id) {
                    Some(tool) => tool,
                    None => opened(self.index(), tool_call_id, tool_name),
                };
                Some(
                    TraceEventModel::Tool(
                        if result.is_error {
                            TraceToolModel { error: Some(result.content), ..tool }
                        } else {
                            TraceToolModel { output: Some(result.content), ..tool }
                        },
                    ),
                )
            },
            EventKindModel::TurnEnd { turn_id, reason } => {
                let turn = match self.turn {
                    Some(turn) => turn,
                    None => fresh_turn(turn_id.0),
                };
                Some(
                    TraceEventModel::Turn(
                        TraceTurnModel {
                            index: turn.index,
                            input: turn.input,
                            output: turn.output,
                            stop_reason: Some(reason_name(reason)),
                        },
                    ),
                )
            },
            EventKindModel::AgentEnd { .. } => Some(
                TraceEventModel::EpisodeEnd { reason: self.end_reason, error: self.error },
            ),
            _ => None,
        }
    }
}

/// Only the start and end of a run, the end of a turn and the end of a tool call give a record,
/// each of its own kind: streaming updates give none.
pub proof fn law_records_follow_settlement(trace: TraceModel, kind: EventKindModel)
    ensures
        (trace.record(kind) matches Some(TraceEventModel::EpisodeHeader { .. }))
            == kind is AgentStart,
        (trace.record(kind) matches Some(TraceEventModel::Tool(_))) == kind is ToolExecutionEnd,
        (trace.record(kind) matches Some(TraceEventModel::Turn(_))) == kind is TurnEnd,
        (trace.record(kind) matches Some(TraceEventModel::EpisodeEnd { .. })) == kind is AgentEnd,
{
}

/// An update of a streamed message after it was seen changes neither the input nor the records
/// to come: recording a user message twice is recording it once.
pub proof fn law_input_is_collected_once(trace: TraceModel, message: MessageModel)
    requires
        message is User,
    ensures
        trace.with_message(message).with_message(message) == trace.with_message(message),
{
}

fn trace_turn_index(turn_id: u64) -> (r: u32)
    ensures
        r == turn_index(turn_id),
{
    let past = turn_id.saturating_sub(1);
    if past > u32::MAX as u64 {
        u32::MAX
    } else {
        past as u32
    }
}

fn stop_reason_name(reason: StopReason) -> (r: &'static str)
    ensures
        r@ == reason_name(reason),
{
    match reason {
        StopReason::EndTurn => "end_turn",
        StopReason::ToolUse => "tool_use",
        StopReason::Length => "length",
        StopReason::Aborted => "aborted",
        StopReason::Cancelled => "cancelled",
        StopReason::Error => "error",
    }
}

fn end_reason(reason: StopReason) -> (r: EndReason)
    ensures
        r == episode_end(reason),
{
    match reason {
        StopReason::EndTurn | StopReason::ToolUse | StopReason::Length => EndReason::Completed,
        StopReason::Aborted => EndReason::Aborted,
        StopReason::Cancelled => EndReason::Cancelled,
        StopReason::Error => EndReason::Failed,
    }
}

fn open_tool(index: u32, id: &ToolCallId, name: &str) -> (r: TraceTool)
    ensures
        r@ == opened(index, id@, name@),
{
    TraceTool {
        turn_index: index,
        call_id: id.as_str().to_owned(),
        name: name.to_owned(),
        input: "".to_owned(),
        output: None,
        error: None,
    }
}

fn new_turn(turn_id: u64) -> (r: PendingTurn)
    ensures
        r@ == fresh_turn(turn_id),
{
    PendingTurn {
        index: trace_turn_index(turn_id),
        input: "".to_owned(),
        output: None,
        last_input_message: None,
    }
}

fn record_message(turn: PendingTurn, message: &Message) -> (r: PendingTurn)
    ensures
        r@ == turn@.with_message(message@),
{
    match message {
        Message::User { id, content } => {
            if let Some(last) = turn.last_input_message {
                if last == *id {
                    return turn;
                }
            }
            let mut input = turn.input;
            if input.as_str().unicode_len() == 0 {
                input = content.clone();
            } else {
                input.push_str("\n");
                input.push_str(content.as_str());
            }
            PendingTurn {
                index: turn.index,
                input,
                output: turn.output,
                last_input_message: Some(*id),
            }
        },
        Message::Assistant { content, .. } => PendingTurn {
            index: turn.index,
            input: turn.input,
            output: Some(content.clone()),
            last_input_message: turn.last_input_message,
        },
        Message::ToolResult { .. } => turn,
    }
}

impl TraceObserver {
    /// Create an observer for the host-assigned episode identifier.
    pub fn new(episode_id: String) -> (r: Self)
        ensures
            r@ == (TraceModel {
                episode_id: episode_id@,
                turn: None,
                tools: Seq::empty(),
                end_reason: EndReason::Completed,
                error: None,
                failed: 0,
            }),
    {
        let r = TraceObserver {
            episode_id,
            current_turn: None,
            pending_tools: Vec::new(),
            end_reason: EndReason::Completed,
            error: None,
            failed: 0,
        };
        assert(r@.tools =~= Seq::<TraceToolModel>::empty());
        r
    }

    /// Number of records that the sink rejected.
    pub fn failed_events(&self) -> (r: u64)
        ensures
            r == self@.failed,
    {
        self.failed
    }

    /// Count a record that the sink rejected.
    pub fn reject(&mut self)
        ensures
            final(self)@ == (TraceModel {
                failed: saturating_sum(old(self)@.failed, 1),
                ..old(self)@
            }),
    {
        let ghost before = self@;
        self.failed = self.failed.saturating_add(1);
        assert(self@ =~= TraceModel { failed: self.failed, ..before });
    }

    fn index(&self) -> (r: u32)
        ensures
            r == self@.index(),
    {
        match &self.current_turn {
            Some(turn) => turn.index,
            None => 0,
        }
    }

    fn take_turn(&mut self) -> (r: Option<PendingTurn>)
        ensures
            crate::model::opt_view(r) == old(self)@.turn,
            final(self)@ == (TraceModel { turn: None, ..old(self)@ }),
    {
        let ghost before = self@;
        let mut turn: Option<PendingTurn> = None;
        std::mem::swap(&mut turn, &mut self.current_turn);
        assert(self@ =~= TraceModel { turn: None, ..before });
        turn
    }

    fn see(&mut self, message: &Message)
        ensures
            final(self)@ == old(self)@.with_message(message@),
    {
        let ghost before = self@;
        if let Message::Assistant { error_message, .. } = message {
            self.error = crate::model::duplicate_opt(error_message);
        }
        if let Some(turn) = self.take_turn() {
            self.current_turn = Some(record_message(turn, message));
        }
        assert(self@ =~= before.with_message(message@));
    }

    /// Remove the pending call with an identifier.
    fn remove(&mut self, id: &ToolCallId) -> (r: Option<TraceTool>)
        ensures
            crate::model::opt_view(r) == pending(old(self)@.tools, id@),
            final(self)@ == (TraceModel { tools: without(old(self)@.tools, id@), ..old(self)@ }),
    {
        let ghost before = self@;
        let ghost all = self@.tools;
        let ghost keep = |tool: TraceToolModel| tool.call_id != id@;
        let mut tools: Vec<TraceTool> = Vec::new();
        std::mem::swap(&mut tools, &mut self.pending_tools);
        let mut kept: Vec<TraceTool> = Vec::new();
        let mut found: Option<TraceTool> = None;
        proof {
            reveal(Seq::filter);
            assert(all.take(0) =~= Seq::<TraceToolModel>::empty());
            assert(crate::model::views(kept@) =~= all.take(0).filter(keep));
        }
        let total = tools.len();
        let mut i: usize = 0;
        while i < total
            invariant
                i <= total == tools@.len(),
                all == crate::model::views(tools@),
                keep == (|tool: TraceToolModel| tool.call_id != id@),
                crate::model::views(kept@) == all.take(i as int).filter(keep),
                crate::model::opt_view(found) == pending(all.take(i as int), id@),
            decreases total - i,
        {
            let tool = tools[i].duplicate();
            proof {
                reveal(Seq::filter);
                assert(all.take(i + 1).drop_last() =~= all.take(i as int));
                assert(all.take(i + 1).last() == tool@);
            }
            if same(tool.call_id.as_str(), id.as_str()) {
                found = Some(tool);
            } else {
                let ghost shorter = kept@;
                kept.push(tool);
                assert(crate::model::views(kept@) =~= crate::model::views(shorter).push(tool@));
            }
            i = i + 1;
        }
        assert(all.take(i as int) =~= all);
        self.pending_tools = kept;
        assert(self@ =~= TraceModel { tools: without(before.tools, id@), ..before });
        found
    }

    /// Apply one event, and give the record to append to the sink, if any.
    pub fn record(&mut self, event: &AgentEvent) -> (r: Option<TraceEvent>)
        ensures
            final(self)@ == old(self)@.after(event.kind@),
            crate::model::opt_view(r) == old(self)@.record(event.kind@),
    {
        let ghost before = self@;
        match &event.kind {
            AgentEventKind::AgentStart => {
                self.current_turn = None;
                self.pending_tools = Vec::new();
                self.end_reason = EndReason::Completed;
                self.error = None;
                assert(self@ =~= before.after(event.kind@));
                Some(TraceEvent::EpisodeHeader { episode_id: self.episode_id.clone() })
            },
            AgentEventKind::TurnStart { turn_id } => {
                self.current_turn = Some(new_turn(turn_id.0));
                assert(self@ =~= before.after(event.kind@));
                None
            },
            AgentEventKind::MessageStart { message } => {
                self.see(message);
                None
            },
            AgentEventKind::MessageUpdate { message, .. } => {
                self.see(message);
                None
            },
            AgentEventKind::MessageEnd { message } => {
                self.see(message);
                None
            },
            AgentEventKind::ToolExecutionStart { tool_call_id, tool_name, .. } => {
                let tool = open_tool(self.index(), tool_call_id, tool_name.as_str());
                let _ = self.remove(tool_call_id);
                let ghost shorter = self.pending_tools@;
                self.pending_tools.push(tool);
                assert(crate::model::views(self.pending_tools@) =~= crate::model::views(
                    shorter,
                ).push(tool@));
                assert(self@ =~= before.after(event.kind@));
                None
            },
            AgentEventKind::ToolExecutionEnd { tool_call_id, tool_name, result } => {
                let index = self.index();
                let mut tool = match self.remove(tool_call_id) {
                    Some(tool) => tool,
                    None => open_tool(index, tool_call_id, tool_name.as_str()),
                };
                if result.is_error {
                    tool.error = Some(result.content.clone());
                } else {
                    tool.output = Some(result.content.clone());
                }
                Some(TraceEvent::Tool(tool))
            },
            AgentEventKind::TurnEnd { turn_id, reason } => {
                let turn = match self.take_turn() {
                    Some(turn) => turn,
                    None => new_turn(turn_id.0),
                };
                self.end_reason = end_reason(*reason);
                assert(self@ =~= before.after(event.kind@));
                Some(
                    TraceEvent::Turn(
                        TraceTurn {
                            index: turn.index,
                            input: turn.input,
                            output: turn.output,
                            stop_reason: Some(stop_reason_name(*reason)),
                        },
                    ),
                )
            },
            AgentEventKind::AgentEnd { .. } => Some(
                TraceEvent::EpisodeEnd {
                    reason: self.end_reason,
                    error: crate::model::duplicate_opt(&self.error),
                },
            ),
            _ => None,
        }
    }
}

impl Duplicate for TraceTool {
    fn duplicate(&self) -> (r: Self) {
        TraceTool {
            turn_index: self.turn_index,
            call_id: self.call_id.clone(),
            name: self.name.clone(),
            input: self.input.clone(),
            output: crate::model::duplicate_opt(&self.output),
            error: crate::model::duplicate_opt(&self.error),
        }
    }
}

} // verus!
