//! Reduction of one provider stream into one assistant message.

use crate::error::{CoreError, CoreErrorModel};
use crate::event::{AgentEventKind, EventKindModel};
use crate::model::{duplicate_all, duplicate_opt, Duplicate};
use crate::scheduler::{ModelStreamEvent, StreamEventModel};
use crate::state::{
    AgentState, AgentStateModel, AssistantToolCall, CallModel, Message, MessageId, MessageModel,
    StopReason, Usage, UsageModel,
};
use vstd::prelude::*;

verus! {

broadcast use crate::model::group_views;

/// What a provider stream has delivered so far.
#[derive(Clone, Debug, Eq, PartialEq)]
pub struct AssistantStream {
    /// Identifier of the assistant message, once text made it visible.
    pub assistant_id: Option<MessageId>,
    /// Text so far.
    pub text: String,
    /// Tool calls so far, in stream order.
    pub tool_calls: Vec<AssistantToolCall>,
    /// Terminal reason, once the stream settled.
    pub reason: Option<StopReason>,
    /// Diagnostic of a failed or aborted response.
    pub error_message: Option<String>,
    /// Merged usage reports.
    pub usage: Option<Usage>,
}

/// Model of an [`AssistantStream`].
#[verifier::ext_equal]
pub struct StreamModel {
    pub assistant_id: Option<MessageId>,
    pub text: Seq<char>,
    pub tool_calls: Seq<CallModel>,
    pub reason: Option<StopReason>,
    pub error_message: Option<Seq<char>>,
    pub usage: Option<UsageModel>,
}

impl View for AssistantStream {
    type V = StreamModel;

    open spec fn view(&self) -> StreamModel {
        StreamModel {
            assistant_id: self.assistant_id,
            text: self.text@,
            tool_calls: crate::model::views(self.tool_calls@),
            reason: self.reason,
            error_message: crate::model::opt_view(self.error_message),
            usage: crate::model::opt_view(self.usage),
        }
    }
}

/// The snapshot of an assistant message whose stream is still open.
pub open spec fn partial_message(id: MessageId, content: Seq<char>) -> MessageModel {
    MessageModel::Assistant {
        id,
        content,
        tool_calls: Seq::empty(),
        stop_reason: None,
        error_message: None,
    }
}

/// A transcript with a message in the place of its last one.
pub open spec fn with_last(messages: Seq<MessageModel>, message: MessageModel) -> Seq<
    MessageModel,
> {
    if messages.len() == 0 {
        messages.push(message)
    } else {
        messages.update(messages.len() - 1, message)
    }
}

impl StreamModel {
    /// A stream that delivered nothing yet.
    pub open spec fn fresh() -> StreamModel {
        StreamModel {
            assistant_id: None,
            text: Seq::empty(),
            tool_calls: Seq::empty(),
            reason: None,
            error_message: None,
            usage: None,
        }
    }

    /// The identifier of the assistant message, given the next free one.
    pub open spec fn message_id(self, state: AgentStateModel) -> MessageId {
        match self.assistant_id {
            Some(id) => id,
            None => MessageId(state.next_message_id),
        }
    }

    /// The stream after one more event.
    pub open spec fn after(self, state: AgentStateModel, event: StreamEventModel) -> StreamModel {
        match event {
            StreamEventModel::TextDelta(delta) => StreamModel {
                assistant_id: Some(self.message_id(state)),
                text: self.text + delta,
                ..self
            },
            StreamEventModel::ToolCall(call) => StreamModel {
                tool_calls: self.tool_calls.push(call),
                ..self
            },
            StreamEventModel::Usage(update) => StreamModel {
                usage: Some(
                    match self.usage {
                        Some(current) => current.merged(update),
                        None => update,
                    },
                ),
                ..self
            },
            StreamEventModel::Error { message } => StreamModel {
                reason: Some(StopReason::Error),
                error_message: Some(message),
                ..self
            },
            StreamEventModel::Aborted { message } => StreamModel {
                reason: Some(StopReason::Aborted),
                error_message: Some(message),
                ..self
            },
            StreamEventModel::End(reason) => StreamModel { reason: Some(reason), ..self },
        }
    }

    /// The agent after one more event: text shows in the transcript at once.
    pub open spec fn state_after(
        self,
        state: AgentStateModel,
        event: StreamEventModel,
    ) -> AgentStateModel {
        match event {
            StreamEventModel::TextDelta(delta) => {
                let id = self.message_id(state);
                let opened = if self.assistant_id is None {
                    state.allocated().appended(partial_message(id, Seq::empty()))
                } else {
                    state
                };
                AgentStateModel {
                    partial_response: Some(self.text + delta),
                    messages: with_last(opened.messages, partial_message(id, self.text + delta)),
                    ..opened
                }
            },
            _ => state,
        }
    }

    /// The events that announce one more stream event.
    pub open spec fn kinds_after(self, state: AgentStateModel, event: StreamEventModel) -> Seq<
        EventKindModel,
    > {
        match event {
            StreamEventModel::TextDelta(delta) => {
                let id = self.message_id(state);
                let update = EventKindModel::MessageUpdate {
                    message: partial_message(id, self.text + delta),
                    text_delta: Some(delta),
                };
                if self.assistant_id is None {
                    seq![
                        EventKindModel::MessageStart {
                            message: partial_message(id, Seq::empty()),
                        },
                        update,
                    ]
                } else {
                    seq![update]
                }
            },
            _ => Seq::empty(),
        }
    }

    /// The finalized assistant message.
    pub open spec fn message(self, state: AgentStateModel) -> MessageModel {
        MessageModel::Assistant {
            id: self.message_id(state),
            content: self.text,
            tool_calls: self.tool_calls,
            stop_reason: self.reason,
            error_message: self.error_message,
        }
    }

    /// The agent once the stream settled.
    pub open spec fn state_finished(self, state: AgentStateModel) -> AgentStateModel {
        let base = if self.assistant_id is None { state.allocated() } else { state };
        AgentStateModel {
            partial_response: None,
            is_streaming: false,
            messages: if self.assistant_id is None {
                base.messages.push(self.message(state))
            } else {
                with_last(base.messages, self.message(state))
            },
            ..base
        }
    }

    /// The events that announce the finalized message.
    pub open spec fn kinds_finished(self, state: AgentStateModel) -> Seq<EventKindModel> {
        let end = EventKindModel::MessageEnd { message: self.message(state) };
        if self.assistant_id is None {
            seq![EventKindModel::MessageStart { message: self.message(state) }, end]
        } else {
            seq![end]
        }
    }
}

fn put_last(messages: &mut Vec<Message>, message: Message)
    ensures
        crate::model::views(final(messages)@) == with_last(
            crate::model::views(old(messages)@),
            message@,
        ),
{
    let n = messages.len();
    if n == 0 {
        messages.push(message);
    } else {
        let ghost before = crate::model::views(messages@);
        messages[n - 1] = message;
        assert(crate::model::views(messages@) =~= before.update(n - 1, message@));
    }
}

fn open_message(id: MessageId, content: String) -> (r: Message)
    ensures
        r@ == partial_message(id, content@),
{
    Message::Assistant {
        id,
        content,
        tool_calls: Vec::new(),
        stop_reason: None,
        error_message: None,
    }
}

impl AssistantStream {
    /// A stream that delivered nothing yet.
    pub fn new() -> (r: Self)
        ensures
            r@ == StreamModel::fresh(),
    {
        AssistantStream {
            assistant_id: None,
            text: String::new(),
            tool_calls: Vec::new(),
            reason: None,
            error_message: None,
            usage: None,
        }
    }

    /// Reduce one provider event. No event may follow the terminal one.
    pub fn accept(&mut self, state: &mut AgentState, event: ModelStreamEvent) -> (r: Result<
        Vec<AgentEventKind>,
        CoreError,
    >)
        ensures
            match r {
                Ok(kinds) => {
                    &&& old(self)@.reason is None
                    &&& final(self)@ == old(self)@.after(old(state)@, event@)
                    &&& final(state)@ == old(self)@.state_after(old(state)@, event@)
                    &&& crate::model::views(kinds@) == old(self)@.kinds_after(
                        old(state)@,
                        event@,
                    )
                },
                Err(error) => {
                    &&& old(self)@.reason is Some
                    &&& final(self)@ == old(self)@
                    &&& final(state)@ == old(state)@
                    &&& error@ == (CoreErrorModel::UnsupportedModelStream {
                        message: "model stream contained events after its terminal event"@,
                    })
                },
            },
    {
        if self.reason.is_some() {
            return Err(
                CoreError::UnsupportedModelStream {
                    message: "model stream contained events after its terminal event".to_owned(),
                },
            );
        }
        let mut kinds: Vec<AgentEventKind> = Vec::new();
        match event {
            ModelStreamEvent::TextDelta(delta) => {
                let ghost start = self@;
                let ghost start_state = state@;
                let id = match self.assistant_id {
                    Some(id) => id,
                    None => {
                        let id = state.allocate_message_id();
                        state.messages.push(open_message(id, String::new()));
                        kinds.push(
                            AgentEventKind::MessageStart {
                                message: open_message(id, String::new()),
                            },
                        );
                        id
                    },
                };
                self.assistant_id = Some(id);
                self.text.push_str(delta.as_str());
                state.partial_response = Some(self.text.clone());
                put_last(&mut state.messages, open_message(id, self.text.clone()));
                kinds.push(
                    AgentEventKind::MessageUpdate {
                        message: open_message(id, self.text.clone()),
                        text_delta: Some(delta),
                    },
                );
                proof {
                    assert(start.message_id(start_state) == id);
                    assert(state@ =~= start.state_after(
                        start_state,
                        StreamEventModel::TextDelta(delta@),
                    ));
                    assert(crate::model::views(kinds@) =~= start.kinds_after(
                        start_state,
                        StreamEventModel::TextDelta(delta@),
                    ));
                }
            },
            ModelStreamEvent::ToolCall(call) => {
                self.tool_calls.push(call);
            },
            ModelStreamEvent::Usage(update) => {
                let merged = match &self.usage {
                    Some(current) => {
                        let mut total = current.duplicate();
                        total.merge(update);
                        total
                    },
                    None => update,
                };
                self.usage = Some(merged);
            },
            ModelStreamEvent::Error { message } => {
                self.reason = Some(StopReason::Error);
                self.error_message = Some(message);
            },
            ModelStreamEvent::Aborted { message } => {
                self.reason = Some(StopReason::Aborted);
                self.error_message = Some(message);
            },
            ModelStreamEvent::End(reason) => {
                self.reason = Some(reason);
            },
        }
        Ok(kinds)
    }

    /// Settle the stream into its assistant message. The stream must have had a terminal event.
    pub fn finish(&self, state: &mut AgentState) -> (r: Result<Vec<AgentEventKind>, CoreError>)
        ensures
            match r {
                Ok(kinds) => {
                    &&& self@.reason is Some
                    &&& final(state)@ == self@.state_finished(old(state)@)
                    &&& crate::model::views(kinds@) == self@.kinds_finished(old(state)@)
                },
                Err(error) => {
                    &&& self@.reason is None
                    &&& final(state)@ == old(state)@
                    &&& error@ == (CoreErrorModel::UnsupportedModelStream {
                        message: "model stream ended without a terminal event"@,
                    })
                },
            },
    {
        if self.reason.is_none() {
            return Err(
                CoreError::UnsupportedModelStream {
                    message: "model stream ended without a terminal event".to_owned(),
                },
            );
        }
        let ghost start_state = state@;
        let id = match self.assistant_id {
            Some(id) => id,
            None => state.allocate_message_id(),
        };
        let assistant = Message::Assistant {
            id,
            content: self.text.clone(),
            tool_calls: duplicate_all(&self.tool_calls),
            stop_reason: self.reason,
            error_message: duplicate_opt(&self.error_message),
        };
        state.partial_response = None;
        state.is_streaming = false;
        let mut kinds: Vec<AgentEventKind> = Vec::new();
        if self.assistant_id.is_some() {
            put_last(&mut state.messages, assistant.duplicate());
        } else {
            state.messages.push(assistant.duplicate());
            kinds.push(AgentEventKind::MessageStart { message: assistant.duplicate() });
        }
        kinds.push(AgentEventKind::MessageEnd { message: assistant });
        proof {
            assert(state@ =~= self@.state_finished(start_state));
            assert(crate::model::views(kinds@) =~= self@.kinds_finished(start_state));
        }
        Ok(kinds)
    }
}

/// The text of the events of a stream, in order.
pub open spec fn streamed_text(events: Seq<StreamEventModel>) -> Seq<char>
    decreases events.len(),
{
    if events.len() == 0 {
        Seq::empty()
    } else {
        match events.last() {
            StreamEventModel::TextDelta(delta) => streamed_text(events.drop_last()) + delta,
            _ => streamed_text(events.drop_last()),
        }
    }
}

/// The tool calls of the events of a stream, in order.
pub open spec fn streamed_calls(events: Seq<StreamEventModel>) -> Seq<CallModel>
    decreases events.len(),
{
    if events.len() == 0 {
        Seq::empty()
    } else {
        match events.last() {
            StreamEventModel::ToolCall(call) => streamed_calls(events.drop_last()).push(call),
            _ => streamed_calls(events.drop_last()),
        }
    }
}

/// A stream and an agent after a sequence of events.
pub open spec fn reduced(
    stream: StreamModel,
    state: AgentStateModel,
    events: Seq<StreamEventModel>,
) -> (StreamModel, AgentStateModel)
    decreases events.len(),
{
    if events.len() == 0 {
        (stream, state)
    } else {
        let (s, a) = reduced(stream, state, events.drop_last());
        (s.after(a, events.last()), s.state_after(a, events.last()))
    }
}

/// The reduced message carries exactly the streamed text and tool calls, each in stream order,
/// and streaming touches nothing of the transcript but the assistant message at its end.
pub proof fn law_reduction_preserves_stream_order(
    state: AgentStateModel,
    events: Seq<StreamEventModel>,
)
    ensures
        ({
            let (s, a) = reduced(StreamModel::fresh(), state, events);
            &&& s.text == streamed_text(events)
            &&& s.tool_calls == streamed_calls(events)
            &&& s.assistant_id is None ==> a.messages == state.messages
            &&& s.assistant_id is Some ==> a.messages.len() == state.messages.len() + 1
                && a.messages.drop_last() == state.messages
        }),
    decreases events.len(),
{
    if events.len() > 0 {
        law_reduction_preserves_stream_order(state, events.drop_last());
        let (s, a) = reduced(StreamModel::fresh(), state, events.drop_last());
        let (s2, a2) = reduced(StreamModel::fresh(), state, events);
        if let StreamEventModel::TextDelta(delta) = events.last() {
            if s.assistant_id is None {
                assert(a2.messages.drop_last() =~= state.messages);
            } else {
                assert(a2.messages.drop_last() =~= a.messages.drop_last());
            }
        }
    }
}

proof fn lemma_streamed_parts(first: Seq<StreamEventModel>, rest: Seq<StreamEventModel>)
    ensures
        streamed_text(first + rest) == streamed_text(first) + streamed_text(rest),
        streamed_calls(first + rest) == streamed_calls(first) + streamed_calls(rest),
    decreases rest.len(),
{
    let whole = first + rest;
    if rest.len() == 0 {
        assert(whole =~= first);
        assert(streamed_text(first) + streamed_text(rest) =~= streamed_text(first));
        assert(streamed_calls(first) + streamed_calls(rest) =~= streamed_calls(first));
    } else {
        lemma_streamed_parts(first, rest.drop_last());
        assert(whole.drop_last() =~= first + rest.drop_last());
        assert(whole.last() == rest.last());
        assert(streamed_text(whole) =~= streamed_text(first) + streamed_text(rest));
        assert(streamed_calls(whole) =~= streamed_calls(first) + streamed_calls(rest));
    }
}

/// The text of a stream is that of its parts, one after the other, and so are its calls: a text
/// delta adds its text and no call, a tool call adds itself and no text, and any other event
/// adds neither.
pub proof fn law_streamed_content_is_that_of_its_parts(
    first: Seq<StreamEventModel>,
    event: StreamEventModel,
    rest: Seq<StreamEventModel>,
)
    ensures
        streamed_text(first + seq![event] + rest) == streamed_text(first) + (match event {
            StreamEventModel::TextDelta(delta) => delta,
            _ => Seq::empty(),
        }) + streamed_text(rest),
        streamed_calls(first + seq![event] + rest) == streamed_calls(first) + (match event {
            StreamEventModel::ToolCall(call) => seq![call],
            _ => Seq::empty(),
        }) + streamed_calls(rest),
        streamed_text(Seq::empty()) == Seq::<char>::empty(),
        streamed_calls(Seq::empty()) == Seq::<CallModel>::empty(),
{
    lemma_streamed_parts(first + seq![event], rest);
    lemma_streamed_parts(first, seq![event]);
    let one = seq![event];
    assert(one.drop_last() =~= Seq::<StreamEventModel>::empty());
    assert(one.last() == event);
    assert(streamed_text(one.drop_last()) =~= Seq::<char>::empty());
    assert(streamed_calls(one.drop_last()) =~= Seq::<CallModel>::empty());
    assert(streamed_text(one) =~= (match event {
        StreamEventModel::TextDelta(delta) => delta,
        _ => Seq::empty(),
    }));
    assert(streamed_calls(one) =~= (match event {
        StreamEventModel::ToolCall(call) => seq![call],
        _ => Seq::empty(),
    }));
}

/// Whether an event ends its stream.
pub open spec fn ends_stream(event: StreamEventModel) -> bool {
    event is End || event is Error || event is Aborted
}

/// What a stream holds while it is open, and where it shows in the transcript: nowhere before
/// its first text, and from then on as the last message, with all the text so far.
proof fn lemma_open_stream(state: AgentStateModel, events: Seq<StreamEventModel>)
    requires
        forall|i: int| 0 <= i < events.len() ==> !ends_stream(#[trigger] events[i]),
    ensures
        ({
            let (s, a) = reduced(StreamModel::fresh(), state, events);
            &&& s.reason is None
            &&& s.error_message is None
            &&& match s.assistant_id {
                None => a == state && forall|i: int|
                    0 <= i < events.len() ==> !((#[trigger] events[i]) is TextDelta),
                Some(id) => {
                    &&& id == MessageId(state.next_message_id)
                    &&& a == (AgentStateModel {
                        messages: state.messages.push(
                            MessageModel::Assistant {
                                id,
                                content: streamed_text(events),
                                tool_calls: Seq::empty(),
                                stop_reason: None,
                                error_message: None,
                            },
                        ),
                        partial_response: Some(streamed_text(events)),
                        next_message_id: if state.next_message_id < u64::MAX {
                            (state.next_message_id + 1) as u64
                        } else {
                            u64::MAX
                        },
                        ..state
                    })
                    &&& exists|i: int| 0 <= i < events.len() && (#[trigger] events[i]) is TextDelta
                },
            }
        }),
    decreases events.len(),
{
    if events.len() > 0 {
        let before = events.drop_last();
        assert forall|i: int| 0 <= i < before.len() implies !ends_stream(#[trigger] before[i]) by {
            assert(before[i] == events[i]);
        }
        lemma_open_stream(state, before);
        law_reduction_preserves_stream_order(state, before);
        let (s, a) = reduced(StreamModel::fresh(), state, before);
        let (s2, a2) = reduced(StreamModel::fresh(), state, events);
        let event = events.last();
        assert(event == events[events.len() - 1]);
        assert(!ends_stream(event));
        if let StreamEventModel::TextDelta(delta) = event {
            assert(events[events.len() - 1] is TextDelta);
            assert(s.text + delta =~= streamed_text(events));
            let shown = MessageModel::Assistant {
                id: MessageId(state.next_message_id),
                content: streamed_text(events),
                tool_calls: Seq::empty(),
                stop_reason: None,
                error_message: None,
            };
            assert(a2.messages =~= state.messages.push(shown));
        } else if s2.assistant_id is Some {
            let i = choose|i: int| 0 <= i < before.len() && (#[trigger] before[i]) is TextDelta;
            assert(events[i] is TextDelta);
        } else {
            assert forall|i: int| 0 <= i < events.len() implies !((#[trigger] events[i])
                is TextDelta) by {
                if i < before.len() {
                    assert(events[i] == before[i]);
                }
            }
        }
    }
}

/// While a stream is open, the text that has arrived shows at once: as the partial response, and
/// as the last message of the transcript, which is otherwise unchanged. Before any text arrives,
/// the agent is unchanged.
pub proof fn law_text_shows_as_it_arrives(state: AgentStateModel, events: Seq<StreamEventModel>)
    requires
        forall|i: int| 0 <= i < events.len() ==> !ends_stream(#[trigger] events[i]),
    ensures
        ({
            let (_, a) = reduced(StreamModel::fresh(), state, events);
            if exists|i: int| 0 <= i < events.len() && (#[trigger] events[i]) is TextDelta {
                &&& a.partial_response == Some(streamed_text(events))
                &&& a.messages.len() == state.messages.len() + 1
                &&& a.messages.drop_last() == state.messages
                &&& a.messages.last() == (MessageModel::Assistant {
                    id: MessageId(state.next_message_id),
                    content: streamed_text(events),
                    tool_calls: Seq::empty(),
                    stop_reason: None,
                    error_message: None,
                })
            } else {
                a == state
            }
        }),
{
    lemma_open_stream(state, events);
    let (s, a) = reduced(StreamModel::fresh(), state, events);
    if s.assistant_id is Some {
        assert(a.messages.drop_last() =~= state.messages);
    }
}

/// A settled stream leaves one more message in the transcript and no other change there: an
/// assistant message with exactly the text and the tool calls that were streamed, and the reason
/// and the diagnostic of the terminal event. The same message is published as complete, and
/// nothing of a response in progress is left.
pub proof fn law_settled_message_is_what_was_streamed(
    state: AgentStateModel,
    events: Seq<StreamEventModel>,
)
    requires
        events.len() > 0,
        ends_stream(events.last()),
        forall|i: int| 0 <= i < events.len() - 1 ==> !ends_stream(#[trigger] events[i]),
    ensures
        ({
            let (s, a) = reduced(StreamModel::fresh(), state, events);
            let settled = s.state_finished(a);
            let kinds = s.kinds_finished(a);
            let message = MessageModel::Assistant {
                id: MessageId(state.next_message_id),
                content: streamed_text(events),
                tool_calls: streamed_calls(events),
                stop_reason: Some(
                    match events.last() {
                        StreamEventModel::End(reason) => reason,
                        StreamEventModel::Aborted { .. } => StopReason::Aborted,
                        _ => StopReason::Error,
                    },
                ),
                error_message: match events.last() {
                    StreamEventModel::Error { message } => Some(message),
                    StreamEventModel::Aborted { message } => Some(message),
                    _ => None,
                },
            };
            &&& settled == (AgentStateModel {
                messages: state.messages.push(message),
                partial_response: None,
                is_streaming: false,
                next_message_id: if state.next_message_id < u64::MAX {
                    (state.next_message_id + 1) as u64
                } else {
                    u64::MAX
                },
                ..state
            })
            &&& kinds.len() > 0
            &&& kinds.last() == (EventKindModel::MessageEnd { message })
            &&& kinds.len() == 2 <==> forall|i: int|
                0 <= i < events.len() ==> !((#[trigger] events[i]) is TextDelta)
            &&& kinds.len() == 2 ==> kinds[0] == (EventKindModel::MessageStart { message })
        }),
{
    let before = events.drop_last();
    assert forall|i: int| 0 <= i < before.len() implies !ends_stream(#[trigger] before[i]) by {
        assert(before[i] == events[i]);
    }
    lemma_open_stream(state, before);
    law_reduction_preserves_stream_order(state, before);
    law_reduction_preserves_stream_order(state, events);
    let (s0, a0) = reduced(StreamModel::fresh(), state, before);
    let (s, a) = reduced(StreamModel::fresh(), state, events);
    assert(a == a0);
    assert(s.assistant_id == s0.assistant_id);
    let settled = s.state_finished(a);
    if s.assistant_id is Some {
        let i = choose|i: int| 0 <= i < before.len() && (#[trigger] before[i]) is TextDelta;
        assert(events[i] is TextDelta);
        assert(settled.messages =~= state.messages.push(s.message(a)));
    } else {
        assert forall|i: int| 0 <= i < events.len() implies !((#[trigger] events[i])
            is TextDelta) by {
            if i < before.len() {
                assert(events[i] == before[i]);
            }
        }
    }
}

/// What is published of a text delta: an update that carries the delta and the whole text so
/// far, opened by a start that is still empty where it is the first text of its message. Other
/// events publish nothing while the stream is open.
pub proof fn law_deltas_are_published(
    state: AgentStateModel,
    before: Seq<StreamEventModel>,
    event: StreamEventModel,
)
    requires
        forall|i: int| 0 <= i < before.len() ==> !ends_stream(#[trigger] before[i]),
    ensures
        ({
            let (s, a) = reduced(StreamModel::fresh(), state, before);
            let kinds = s.kinds_after(a, event);
            match event {
                StreamEventModel::TextDelta(delta) => {
                    &&& kinds.len() == (if exists|i: int|
                        0 <= i < before.len() && (#[trigger] before[i]) is TextDelta {
                        1int
                    } else {
                        2
                    })
                    &&& kinds.last() == (EventKindModel::MessageUpdate {
                        message: MessageModel::Assistant {
                            id: MessageId(state.next_message_id),
                            content: streamed_text(before) + delta,
                            tool_calls: Seq::empty(),
                            stop_reason: None,
                            error_message: None,
                        },
                        text_delta: Some(delta),
                    })
                    &&& kinds.len() == 2 ==> kinds[0] == (EventKindModel::MessageStart {
                        message: MessageModel::Assistant {
                            id: MessageId(state.next_message_id),
                            content: Seq::empty(),
                            tool_calls: Seq::empty(),
                            stop_reason: None,
                            error_message: None,
                        },
                    })
                },
                _ => kinds.len() == 0,
            }
        }),
{
    lemma_open_stream(state, before);
    law_reduction_preserves_stream_order(state, before);
}

/// The usage of a stream is its last report, field by field: a field keeps what was reported
/// until a later report names it again, and reports of other events change nothing.
pub proof fn law_usage_is_the_last_report(
    stream: StreamModel,
    state: AgentStateModel,
    event: StreamEventModel,
)
    ensures
        ({
            let usage = stream.after(state, event).usage;
            match event {
                StreamEventModel::Usage(update) => match stream.usage {
                    None => usage == Some(update),
                    Some(current) => {
                        &&& usage matches Some(u)
                        &&& update.input_tokens is Some ==> u.input_tokens == update.input_tokens
                        &&& update.input_tokens is None ==> u.input_tokens == current.input_tokens
                        &&& update.output_tokens is Some ==> u.output_tokens
                            == update.output_tokens
                        &&& update.output_tokens is None ==> u.output_tokens
                            == current.output_tokens
                        &&& update.reasoning_tokens is Some ==> u.reasoning_tokens
                            == update.reasoning_tokens
                        &&& update.reasoning_tokens is None ==> u.reasoning_tokens
                            == current.reasoning_tokens
                        &&& update.cache_read_tokens is Some ==> u.cache_read_tokens
                            == update.cache_read_tokens
                        &&& update.cache_read_tokens is None ==> u.cache_read_tokens
                            == current.cache_read_tokens
                        &&& update.cache_write_tokens is Some ==> u.cache_write_tokens
                            == update.cache_write_tokens
                        &&& update.cache_write_tokens is None ==> u.cache_write_tokens
                            == current.cache_write_tokens
                        &&& update.cost is Some ==> u.cost == update.cost
                        &&& update.cost is None ==> u.cost == current.cost
                    },
                },
                _ => usage == stream.usage,
            }
        }),
{
}

} // verus!
