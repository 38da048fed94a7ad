//! What the steps of a run do, told by what the host hands in and what it gets back: how a run
//! opens, and how the conversation reaches the model.
//!
//! [`crate::lifecycle`] says what every step keeps. The laws here, in [`crate::batches`] and in
//! [`crate::endings`] follow one thing at a time through the steps. They speak of the fields of
//! messages, events and actions themselves.

use crate::agent::{owner, AgentModel};
use crate::event::EventKindModel;
use crate::hooks::ContextModel;
use crate::queue::{QueueMode, QueuedModel};
use crate::scheduler::{RequestModel, StreamEventModel};
use crate::state::{MessageId, MessageModel, RunPhase, TurnId, UsageModel};
use crate::transition::{
    account, all_message_events, connect, inject, next, opened, place, prepared, raise,
    request_model, resume, settle_cancellation, settle_failure, start, stream_ended, streamed,
    ActionModel, InputModel, Next, Point, RunModel,
};
use vstd::prelude::*;

verus! {

/// The next value of a counter that stops at its largest.
pub open spec fn succeeding(counter: u64) -> u64 {
    if counter < u64::MAX {
        (counter + 1) as u64
    } else {
        counter
    }
}

/// Whether a step publishes exactly these events, first to last: the first one now, the others
/// next, each as the host reports the one before.
pub open spec fn announces(step: Next, kinds: Seq<EventKindModel>) -> bool {
    &&& kinds.len() > 0
    &&& step.action matches ActionModel::Publish(event) && event.kind == kinds[0]
    &&& step.run.outbox == kinds.skip(1)
}

/// Events that wait are published one at a time, in order, and nothing else happens meanwhile.
pub proof fn law_waiting_events_are_published_in_order(
    run: RunModel,
    agent: AgentModel,
    cancelled: bool,
)
    requires
        run.outbox.len() > 0,
    ensures
        ({
            let step = next(run, agent, InputModel::Published, cancelled);
            &&& announces(step, run.outbox)
            &&& step.agent == agent
            &&& step.run.point == run.point
            &&& step.run.calls == run.calls
            &&& step.run.slots == run.slots
            &&& step.run.running == run.running
        }),
{
    reveal(next);
}

/// Whether a message is announced as complete at this place: a start and an end that both carry
/// it.
pub open spec fn tells_message(kinds: Seq<EventKindModel>, at: int, message: MessageModel) -> bool {
    &&& 0 <= at
    &&& at + 1 < kinds.len()
    &&& kinds[at] == (EventKindModel::MessageStart { message })
    &&& kinds[at + 1] == (EventKindModel::MessageEnd { message })
}

proof fn lemma_message_events(messages: Seq<MessageModel>)
    ensures
        all_message_events(messages).len() == 2 * messages.len(),
        forall|i: int|
            0 <= i < messages.len() ==> #[trigger] tells_message(
                all_message_events(messages),
                2 * i,
                messages[i],
            ),
    decreases messages.len(),
{
    if messages.len() > 0 {
        lemma_message_events(messages.drop_last());
        let all = all_message_events(messages);
        let part = all_message_events(messages.drop_last());
        assert forall|i: int| 0 <= i < messages.len() implies #[trigger] tells_message(
            all,
            2 * i,
            messages[i],
        ) by {
            if i < messages.len() - 1 {
                assert(tells_message(part, 2 * i, messages.drop_last()[i]));
                assert(all[2 * i] == part[2 * i]);
                assert(all[2 * i + 1] == part[2 * i + 1]);
            }
        }
    }
}

/// A run that begins announces itself, then its first turn, then each of its initial messages in
/// order, and enters its first turn.
pub proof fn law_a_run_opens_with_its_prompts(run: RunModel, agent: AgentModel, cancelled: bool)
    requires
        run.point == Point::Created,
        run.state.phase == RunPhase::Created,
        owner(agent.state.phase) == Some(run.state.id),
    ensures
        ({
            let step = next(run, agent, InputModel::Drive, cancelled);
            let rest = step.run.outbox;
            &&& step.action matches ActionModel::Publish(event) && event.kind
                == EventKindModel::AgentStart
            &&& rest.len() == 1 + 2 * run.initial_messages.len()
            &&& rest[0] == (EventKindModel::TurnStart { turn_id: TurnId(1) })
            &&& forall|i: int|
                0 <= i < run.initial_messages.len() ==> #[trigger] tells_message(
                    rest,
                    1 + 2 * i,
                    run.initial_messages[i],
                )
            &&& step.run.state.phase == RunPhase::Running
            &&& step.run.state.turn_id == Some(TurnId(1))
            &&& step.run.turn_id == TurnId(1)
            &&& step.agent == agent
        }),
{
    reveal(next);
    reveal(start);
    lemma_message_events(run.initial_messages);
    let step = next(run, agent, InputModel::Drive, cancelled);
    let told = all_message_events(run.initial_messages);
    assert(step.run.outbox =~= seq![EventKindModel::TurnStart { turn_id: TurnId(1) }] + told);
    assert forall|i: int| 0 <= i < run.initial_messages.len() implies #[trigger] tells_message(
        step.run.outbox,
        1 + 2 * i,
        run.initial_messages[i],
    ) by {
        assert(tells_message(told, 2 * i, run.initial_messages[i]));
        assert(step.run.outbox[1 + 2 * i] == told[2 * i]);
        assert(step.run.outbox[2 + 2 * i] == told[2 * i + 1]);
    }
}

/// What one drain takes: everything, or the oldest message only.
pub open spec fn taken(entries: Seq<QueuedModel>, mode: QueueMode) -> Seq<QueuedModel> {
    match mode {
        QueueMode::All => entries,
        QueueMode::OneAtATime => if entries.len() > 0 {
            seq![entries[0]]
        } else {
            entries
        },
    }
}

/// Whether messages were taken from the front of a queue, and the rest was left.
pub open spec fn took(
    before: Seq<QueuedModel>,
    taken: Seq<QueuedModel>,
    after: Seq<QueuedModel>,
) -> bool {
    before == taken + after
}

pub(crate) proof fn lemma_taken(queue: crate::queue::QueueModel, mode: QueueMode)
    ensures
        queue.drained(mode) == taken(queue.entries, mode),
        took(queue.entries, taken(queue.entries, mode), queue.after_drain(mode).entries),
{
    assert(queue.drained(mode) =~= taken(queue.entries, mode));
    assert(taken(queue.entries, mode) + queue.after_drain(mode).entries =~= queue.entries);
}

/// A queued message enters the conversation as a user message with its text: it is appended to
/// the transcript, and to the prepared context if there is one, and is published as complete.
/// The oldest message goes first, and the others keep waiting in order.
pub proof fn law_queued_messages_enter_the_conversation(
    run: RunModel,
    agent: AgentModel,
    cancelled: bool,
)
    requires
        run.point == Point::Injecting || run.point == Point::TurnStarted,
        run.outbox.len() == 0,
        run.queued.len() > 0,
    ensures
        ({
            let step = next(run, agent, InputModel::Published, cancelled);
            let message = MessageModel::User {
                id: MessageId(agent.state.next_message_id),
                content: run.queued[0].content,
            };
            &&& step.agent.state.messages == agent.state.messages.push(message)
            &&& step.agent.state.next_message_id == succeeding(agent.state.next_message_id)
            &&& announces(
                step,
                seq![
                    EventKindModel::MessageStart { message },
                    EventKindModel::MessageEnd { message },
                ],
            )
            &&& step.run.queued == run.queued.skip(1)
            &&& step.run.point == Point::Injecting
            &&& match run.context {
                None => step.run.context is None,
                Some(context) => step.run.context == Some(
                    ContextModel {
                        version: context.version,
                        messages: context.messages.push(message),
                        host_messages: context.host_messages,
                    },
                ),
            }
        }),
{
    reveal(next);
    reveal(resume);
    reveal(inject);
}

/// Once no message waits, the model is asked: the host first transforms the prepared context, or
/// where none was prepared the transcript as it stands, and the request names the agent's prompt
/// and tools, and its model and thinking level unless the run overrides them.
pub proof fn law_the_model_is_asked_with_the_conversation(
    run: RunModel,
    agent: AgentModel,
    cancelled: bool,
)
    requires
        run.point == Point::Injecting || run.point == Point::TurnStarted,
        run.outbox.len() == 0,
        run.queued.len() == 0,
        owner(agent.state.phase) == Some(run.state.id),
        !cancelled || run.turn_id != TurnId(1),
    ensures
        ({
            let step = next(run, agent, InputModel::Published, cancelled);
            &&& step.action == ActionModel::TransformContext(
                match run.context {
                    Some(context) => context,
                    None => ContextModel {
                        version: 1,
                        messages: agent.state.messages,
                        host_messages: agent.state.host_messages,
                    },
                },
            )
            &&& step.run.request matches Some(request)
            &&& request.system_prompt == agent.state.system_prompt
            &&& request.tools == agent.tools
            &&& run.model_override is Some ==> request.model == run.model_override
            &&& run.model_override is None ==> request.model == agent.state.model
            &&& run.thinking_override matches Some(level) ==> request.thinking_level == level
            &&& run.thinking_override is None ==> request.thinking_level
                == agent.state.thinking_level
            &&& step.agent.state.is_streaming
            &&& step.agent.state.messages == agent.state.messages
            &&& step.run.point == Point::Transforming
        }),
{
    reveal(next);
    reveal(resume);
    reveal(inject);
    reveal(request_model);
}

/// The first request of a run whose opening skips steering asks with the transcript; any other
/// run first takes the steering messages that wait, and its context is the transcript followed
/// by them.
pub proof fn law_a_run_begins_with_its_steering(
    run: RunModel,
    agent: AgentModel,
)
    requires
        run.point == Point::Opening,
        run.outbox.len() == 0,
        owner(agent.state.phase) == Some(run.state.id),
    ensures
        ({
            let step = next(run, agent, InputModel::Published, false);
            let steering = taken(agent.queues.steering.entries, agent.steering);
            let transcript = ContextModel {
                version: 1,
                messages: agent.state.messages,
                host_messages: agent.state.host_messages,
            };
            if run.skip_initial_steering {
                &&& step.action == ActionModel::TransformContext(transcript)
                &&& step.agent.queues == agent.queues
            } else if steering.len() == 0 {
                step.action == ActionModel::TransformContext(transcript)
            } else {
                let message = MessageModel::User {
                    id: MessageId(agent.state.next_message_id),
                    content: steering[0].content,
                };
                &&& step.agent.state.messages == agent.state.messages.push(message)
                &&& step.run.context == Some(
                    ContextModel {
                        version: 1,
                        messages: agent.state.messages.push(message),
                        host_messages: agent.state.host_messages,
                    },
                )
                &&& step.run.queued == steering.skip(1)
                &&& took(
                    agent.queues.steering.entries,
                    steering,
                    step.agent.queues.steering.entries,
                )
                &&& step.agent.queues.follow_up == agent.queues.follow_up
            }
        }),
{
    reveal(next);
    reveal(resume);
    reveal(opened);
    reveal(inject);
    reveal(request_model);
    lemma_taken(agent.queues.steering, agent.steering);
}

/// What the host transformed is what it is asked to convert, and what it converted is what the
/// provider is sent, beside the prompt, the tools, the model and the thinking level that the
/// request was made with.
pub proof fn law_the_provider_is_sent_what_was_converted(
    run: RunModel,
    agent: AgentModel,
    context: ContextModel,
    text: Seq<char>,
    cancelled: bool,
)
    requires
        run.outbox.len() == 0,
        run.request is Some,
        agent.provider,
    ensures
        run.point == Point::Transforming ==> ({
            let step = next(run, agent, InputModel::Context(context), cancelled);
            &&& step.action == ActionModel::ConvertContext(context)
            &&& step.run.request == run.request
            &&& step.run.point == Point::Converting
            &&& step.agent == agent
        }),
        run.point == Point::Converting ==> ({
            let step = next(run, agent, InputModel::Converted(text), cancelled);
            let asked = run.request->0;
            &&& step.action == ActionModel::OpenStream(
                RequestModel {
                    system_prompt: asked.system_prompt,
                    context: text,
                    tools: asked.tools,
                    model: asked.model,
                    thinking_level: asked.thinking_level,
                },
            )
            &&& step.run.turn_model == asked.model
            &&& step.agent == agent
        }),
{
    reveal(next);
    reveal(connect);
}

/// An opened stream starts from nothing: what an earlier response delivered plays no part.
pub proof fn law_a_response_starts_from_nothing(run: RunModel, agent: AgentModel, cancelled: bool)
    requires
        run.point == Point::Connecting,
        run.outbox.len() == 0,
    ensures
        ({
            let step = next(run, agent, InputModel::Connected, cancelled);
            let stream = step.run.stream;
            &&& step.action is NextStreamEvent
            &&& step.agent == agent
            &&& stream.text.len() == 0
            &&& stream.tool_calls.len() == 0
            &&& stream.assistant_id is None
            &&& stream.reason is None
            &&& stream.error_message is None
            &&& stream.usage is None
        }),
{
    reveal(next);
}

/// Each provider event is reduced into the stream, the agent and what is published, and the next
/// one is asked for; the end of the stream settles it, and its calls and its reason are those of
/// the turn.
pub proof fn law_events_reach_the_stream(
    run: RunModel,
    agent: AgentModel,
    event: StreamEventModel,
    cancelled: bool,
)
    requires
        run.point == Point::Streaming,
        run.outbox.len() == 0,
    ensures
        run.stream.reason is None ==> ({
            let step = next(run, agent, InputModel::Stream(Some(event)), cancelled);
            let kinds = run.stream.kinds_after(agent.state, event);
            &&& step.run.stream == run.stream.after(agent.state, event)
            &&& step.agent.state == run.stream.state_after(agent.state, event)
            &&& step.run.point == Point::Streaming
            &&& if kinds.len() > 0 {
                announces(step, kinds)
            } else {
                step.action is NextStreamEvent
            }
        }),
        run.stream.reason matches Some(reason) ==> ({
            let step = next(run, agent, InputModel::Stream(None), cancelled);
            &&& step.agent.state == run.stream.state_finished(agent.state)
            &&& announces(step, run.stream.kinds_finished(agent.state))
            &&& step.run.calls == run.stream.tool_calls
            &&& step.run.reason == reason
            &&& step.run.stream == run.stream
        }),
        run.stream.reason is None && !run.state.phase.terminal() ==> {
            let step = next(run, agent, InputModel::Stream(None), cancelled);
            step.run.error is Some && step.action is Publish
        },
        run.stream.reason is Some && !run.state.phase.terminal() ==> {
            let step = next(run, agent, InputModel::Stream(Some(event)), cancelled);
            step.run.error is Some && step.action is Publish && step.run.stream == run.stream
        },
{
    reveal(next);
    reveal(streamed);
    reveal(stream_ended);
    reveal(raise);
    reveal(settle_failure);
    reveal(settle_cancellation);
}

/// Reported usage is published and recorded under the run, the turn and the model that it
/// belongs to.
pub proof fn law_usage_is_published_with_its_turn(
    run: RunModel,
    agent: AgentModel,
    usage: UsageModel,
    cancelled: bool,
)
    requires
        run.point == Point::AssistantPublished,
        run.outbox.len() == 0,
        run.stream.usage == Some(usage),
    ensures
        ({
            let step = next(run, agent, InputModel::Published, cancelled);
            &&& step.action matches ActionModel::Publish(event)
            &&& event.kind matches EventKindModel::ModelTurnUsage { accounting }
            &&& accounting.run_id == run.state.id
            &&& accounting.turn_id == run.turn_id
            &&& accounting.model == run.turn_model
            &&& accounting.usage == usage
            &&& step.agent.state.accounting.turns == agent.state.accounting.turns.push(accounting)
            &&& step.run.outbox.len() == 0
            &&& step.run.calls == run.calls
            &&& step.run.reason == run.reason
        }),
{
    reveal(next);
    reveal(resume);
    reveal(account);
}

} // verus!
