//! What the steps of a run do after a turn: whether it goes on, and how it ends.

use crate::agent::{owner, AgentModel};
use crate::conduct::{announces, lemma_taken, succeeding, taken, took};
use crate::error::CoreErrorModel;
use crate::event::EventKindModel;
use crate::hooks::{ContextModel, NextTurnModel};
use crate::state::{AgentPhase, MessageId, MessageModel, RunPhase, StopReason, TurnId};
use crate::transition::{
    answered, close, closed, next, prepared, raise, response_failed, resume, settle_cancellation,
    settle_failure, turn_ended, ActionModel, InputModel, Point, RunModel,
};
use vstd::prelude::*;

verus! {

/// After a turn the host prepares the next one from the transcript as it stands, and what it
/// gives is used: its context, and its model and thinking level where it names them. What it does
/// not name stays. It is then asked whether to stop, with that context.
pub proof fn law_the_next_turn_is_prepared_by_the_host(
    run: RunModel,
    agent: AgentModel,
    prepared_turn: NextTurnModel,
    cancelled: bool,
)
    requires
        run.outbox.len() == 0,
        owner(agent.state.phase) is Some,
    ensures
        run.point == Point::TurnEnded ==> ({
            let step = next(run, agent, InputModel::Published, cancelled);
            let transcript = ContextModel {
                version: 1,
                messages: agent.state.messages,
                host_messages: agent.state.host_messages,
            };
            &&& step.action == ActionModel::PrepareNextTurn(transcript)
            &&& step.run.context == Some(transcript)
            &&& step.run.terminate == run.terminate
        }),
        run.point == Point::Preparing && run.context is Some ==> ({
            let step = next(run, agent, InputModel::NextTurn(prepared_turn), cancelled);
            &&& step.action matches ActionModel::AskStop(context)
            &&& step.run.context == Some(context)
            &&& prepared_turn.context is Some ==> Some(context) == prepared_turn.context
            &&& prepared_turn.context is None ==> Some(context) == run.context
            &&& prepared_turn.model is Some ==> step.run.model_override == prepared_turn.model
            &&& prepared_turn.model is None ==> step.run.model_override == run.model_override
            &&& prepared_turn.thinking_level is Some ==> step.run.thinking_override
                == prepared_turn.thinking_level
            &&& prepared_turn.thinking_level is None ==> step.run.thinking_override
                == run.thinking_override
        }),
{
    reveal(next);
    reveal(resume);
    reveal(turn_ended);
    reveal(prepared);
}

/// Whether a run goes on after a turn. It stops where the host says so. Otherwise it goes on
/// where tool results wait for a response or a message waits: steering first, and follow-up only
/// where neither results nor steering would keep the run going. It takes what it goes on with from the
/// front of that queue, leaves the other queue alone, and enters the next turn; where there is
/// nothing to go on with it ends.
pub proof fn law_when_a_run_goes_on(
    run: RunModel,
    agent: AgentModel,
    stop: bool,
    cancelled: bool,
)
    requires
        run.point == Point::Asking,
        run.outbox.len() == 0,
        run.state.phase == RunPhase::Running,
    ensures
        ({
            let step = next(run, agent, InputModel::Stop(stop), cancelled);
            let results_wait = run.calls.len() > 0 && !run.terminate;
            let steering = taken(agent.queues.steering.entries, agent.steering);
            let follow_up = taken(agent.queues.follow_up.entries, agent.follow_up);
            let added = agent.state.messages.skip(run.message_start_index as int);
            &&& if stop {
                &&& step.run.point == Point::Closing
                &&& step.agent == agent
                &&& run.message_start_index <= agent.state.messages.len() ==> announces(
                    step,
                    seq![EventKindModel::AgentEnd { messages: added }],
                )
            } else if results_wait || steering.len() > 0 || follow_up.len() > 0 {
                &&& step.run.point == Point::TurnStarted
                &&& step.run.turn_id == TurnId(succeeding(run.turn_id.0))
                &&& step.run.state.turn_id == Some(step.run.turn_id)
                &&& announces(step, seq![EventKindModel::TurnStart { turn_id: step.run.turn_id }])
                &&& if steering.len() > 0 || results_wait {
                    &&& step.run.queued == steering
                    &&& step.agent.queues.follow_up.entries == agent.queues.follow_up.entries
                } else {
                    &&& step.run.queued == follow_up
                    &&& took(
                        agent.queues.follow_up.entries,
                        follow_up,
                        step.agent.queues.follow_up.entries,
                    )
                }
                &&& took(
                    agent.queues.steering.entries,
                    steering,
                    step.agent.queues.steering.entries,
                )
                &&& step.run.context == run.context
            } else {
                &&& step.run.point == Point::Closing
                &&& run.message_start_index <= agent.state.messages.len() ==> announces(
                    step,
                    seq![EventKindModel::AgentEnd { messages: added }],
                )
            }
            &&& step.agent.state.messages == agent.state.messages
        }),
{
    reveal(next);
    reveal(answered);
    reveal(close);
    lemma_taken(agent.queues.steering, agent.steering);
    lemma_taken(agent.queues.follow_up, agent.follow_up);
    let step = next(run, agent, InputModel::Stop(stop), cancelled);
    assert(step.run.outbox =~= Seq::<EventKindModel>::empty());
    let added = agent.state.messages.skip(run.message_start_index as int);
    assert(seq![EventKindModel::AgentEnd { messages: added }].skip(1) =~= Seq::<
        EventKindModel,
    >::empty());
    assert(seq![EventKindModel::TurnStart { turn_id: step.run.turn_id }].skip(1) =~= Seq::<
        EventKindModel,
    >::empty());
}

/// A run whose end was published succeeds with the reason of its last response, and its agent is
/// idle with its transcript as it stood.
pub proof fn law_a_closed_run_succeeds(run: RunModel, agent: AgentModel, cancelled: bool)
    requires
        run.point == Point::Closing,
        run.outbox.len() == 0,
        !run.state.phase.terminal(),
    ensures
        ({
            let step = next(run, agent, InputModel::Published, cancelled);
            &&& step.action == ActionModel::Done(Ok::<(), CoreErrorModel>(()))
            &&& step.run.state.phase == RunPhase::Succeeded
            &&& step.run.state.stop_reason == Some(run.reason)
            &&& step.run.state.error is None
            &&& step.agent.state.phase == AgentPhase::Idle
            &&& step.agent.state.last_error is None
            &&& step.agent.state.messages == agent.state.messages
        }),
{
    reveal(next);
    reveal(resume);
    reveal(closed);
}

/// A run whose response failed reports the provider's own diagnostic, where it gave one, and one
/// that was aborted by a cancellation is cancelled.
pub proof fn law_a_failed_response_fails_its_run(run: RunModel, agent: AgentModel, cancelled: bool)
    requires
        run.point == Point::FailedEnd,
        run.outbox.len() == 0,
        !run.state.phase.terminal(),
    ensures
        ({
            let step = next(run, agent, InputModel::Published, cancelled);
            &&& if run.reason == StopReason::Aborted && cancelled {
                &&& step.action == ActionModel::Done(Err::<(), _>(CoreErrorModel::Cancelled))
                &&& step.run.state.phase == RunPhase::Cancelled
            } else {
                &&& step.run.state.phase == RunPhase::Failed
                &&& step.action matches ActionModel::Done(Err(error))
                &&& run.reason == StopReason::Aborted <==> error is ModelAborted
                &&& run.reason != StopReason::Aborted <==> error is ModelError
                &&& run.stream.error_message matches Some(text) ==> {
                    &&& step.run.state.error == Some(text)
                    &&& step.agent.state.last_error == Some(text)
                    &&& error == (CoreErrorModel::ModelAborted { message: text }) || error == (
                    CoreErrorModel::ModelError { message: text })
                }
                &&& run.stream.error_message is None ==> step.run.state.error == Some(
                    if run.reason == StopReason::Aborted {
                        "model response was aborted"@
                    } else {
                        "model response failed"@
                    },
                )
                &&& step.run.state.stop_reason == Some(StopReason::Error)
            }
            &&& step.agent.state.phase == AgentPhase::Idle
            &&& step.agent.state.messages == agent.state.messages
        }),
{
    reveal(next);
    reveal(resume);
    reveal(response_failed);
}

/// A failure that no step expects settles the run, wherever it is: the transcript gets a last
/// message that tells of it, as an error or, where the run was cancelled, as aborted, that message
/// is published, and the turn ends with the same reason. A cancelled run whose transcript already
/// ends with an aborted message gets no other. Nothing is left pending, and the run will report
/// that very failure.
pub proof fn law_failures_settle_the_run(
    run: RunModel,
    agent: AgentModel,
    error: CoreErrorModel,
    cancelled: bool,
)
    requires
        !run.state.phase.terminal(),
        run.point != Point::FailureTurn,
        run.point != Point::FailureEnd,
        run.point != Point::CancelTurn,
        run.point != Point::CancelEnd,
    ensures
        ({
            let step = next(run, agent, InputModel::Failed(error), cancelled);
            let told = agent.state.messages.len() > 0 && (agent.state.messages.last()
                matches MessageModel::Assistant { stop_reason, .. } && stop_reason == Some(
                StopReason::Aborted,
            ));
            let message = MessageModel::Assistant {
                id: MessageId(agent.state.next_message_id),
                content: Seq::empty(),
                tool_calls: Seq::empty(),
                stop_reason: Some(
                    if cancelled {
                        StopReason::Aborted
                    } else {
                        StopReason::Error
                    },
                ),
                error_message: Some(
                    if cancelled {
                        "Operation aborted"@
                    } else {
                        error.text()
                    },
                ),
            };
            let turn_end = EventKindModel::TurnEnd {
                turn_id: match run.state.turn_id {
                    Some(turn_id) => turn_id,
                    None => TurnId(1),
                },
                reason: if cancelled {
                    StopReason::Cancelled
                } else {
                    StopReason::Error
                },
            };
            &&& step.run.error == Some(error)
            &&& step.run.point == if cancelled {
                Point::CancelTurn
            } else {
                Point::FailureTurn
            }
            &&& if cancelled && told {
                &&& step.agent.state.messages == agent.state.messages
                &&& announces(step, seq![turn_end])
            } else {
                &&& step.agent.state.messages == agent.state.messages.push(message)
                &&& step.agent.state.next_message_id == succeeding(agent.state.next_message_id)
                &&& announces(
                    step,
                    seq![
                        EventKindModel::MessageStart { message },
                        EventKindModel::MessageEnd { message },
                        turn_end,
                    ],
                )
            }
            &&& step.agent.state.partial_response is None
            &&& step.agent.state.pending_tool_calls == Set::<Seq<char>>::empty()
            &&& step.agent.queues == agent.queues
        }),
{
    reveal(next);
    reveal(raise);
    reveal(settle_failure);
    reveal(settle_cancellation);
    let step = next(run, agent, InputModel::Failed(error), cancelled);
    let message = step.agent.state.messages.last();
    assert(seq![
        EventKindModel::MessageStart { message },
        EventKindModel::MessageEnd { message },
    ].push(
        EventKindModel::TurnEnd {
            turn_id: crate::transition::current_turn(run),
            reason: if cancelled {
                StopReason::Cancelled
            } else {
                StopReason::Error
            },
        },
    ) =~= seq![
        EventKindModel::MessageStart { message },
        EventKindModel::MessageEnd { message },
        EventKindModel::TurnEnd {
            turn_id: crate::transition::current_turn(run),
            reason: if cancelled {
                StopReason::Cancelled
            } else {
                StopReason::Error
            },
        },
    ]);
}

/// A run that settles as failed or cancelled, or whose response failed, announces its end with
/// the messages that it added to the transcript.
pub proof fn law_a_settling_run_announces_its_end(run: RunModel, agent: AgentModel, cancelled: bool)
    requires
        run.outbox.len() == 0,
        run.message_start_index <= agent.state.messages.len(),
        run.point == Point::FailureTurn || run.point == Point::CancelTurn || run.point
            == Point::FailedTurn,
    ensures
        ({
            let step = next(run, agent, InputModel::Published, cancelled);
            &&& announces(
                step,
                seq![
                    EventKindModel::AgentEnd {
                        messages: agent.state.messages.skip(run.message_start_index as int),
                    },
                ],
            )
            &&& step.agent == agent
            &&& step.run.error == run.error
            &&& step.run.point == if run.point == Point::FailureTurn {
                Point::FailureEnd
            } else if run.point == Point::CancelTurn {
                Point::CancelEnd
            } else {
                Point::FailedEnd
            }
        }),
{
    reveal(next);
    reveal(resume);
    let step = next(run, agent, InputModel::Published, cancelled);
    assert(step.run.outbox =~= seq![
        EventKindModel::AgentEnd {
            messages: agent.state.messages.skip(run.message_start_index as int),
        },
    ].skip(1));
}

/// A run that settles as failed or cancelled reports the failure that settled it.
pub proof fn law_a_settled_failure_is_reported(run: RunModel, agent: AgentModel, cancelled: bool)
    requires
        run.outbox.len() == 0,
        !run.state.phase.terminal(),
        run.error is Some,
        run.point == Point::FailureEnd || run.point == Point::CancelEnd,
    ensures
        ({
            let step = next(run, agent, InputModel::Published, cancelled);
            &&& step.action == ActionModel::Done(Err::<(), _>(run.error->0))
            &&& run.point == Point::FailureEnd ==> step.run.state.phase == RunPhase::Failed
                && step.run.state.error == Some(run.error->0.text())
                && step.agent.state.last_error == Some(run.error->0.text())
            &&& run.point == Point::CancelEnd ==> step.run.state.phase == RunPhase::Cancelled
                && step.run.state.stop_reason == Some(StopReason::Aborted)
                && step.run.state.error is None && step.agent.state.last_error is None
            &&& run.point == Point::FailureEnd ==> step.run.state.stop_reason == Some(
                StopReason::Error,
            )
            &&& step.agent.state.phase == AgentPhase::Idle
            &&& step.agent.active_run is None
            &&& step.agent.state.messages == agent.state.messages
        }),
{
    reveal(next);
    reveal(resume);
}

} // verus!
