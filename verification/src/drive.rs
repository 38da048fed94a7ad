//! The step function of a run.
//!
//! What is pending is known from the point that the run has reached. A step takes the outcome
//! of the pending action, and gives the next action.

use crate::agent::Agent;
use crate::error::{HookError, ToolErrorModel};
use crate::hooks::AfterToolCall;
use crate::run::{at, transition_error, RunHandle};
use crate::schema_validation::{judged, validate_tool_arguments};
use crate::state::phase_name;
use crate::transition::{
    self, ActionModel, InputModel, Next, PendingToolUpdate, Point, RunAction, RunInput,
};
use vstd::prelude::*;

verus! {

broadcast use crate::model::group_views;

impl RunHandle {
    /// Go on with a call that the output limit truncated.
    fn resume_truncated(&mut self, agent: &mut Agent, cancelled: bool) -> (r: RunAction)
        requires
            old(self)@.wf(),
            old(self)@.point is TruncatedStarted || old(self)@.point is TruncatedEnded
                || old(self)@.point is TruncatedAppended,
        ensures
            at(*final(self), *final(agent), r) == transition::resume(
                old(self)@,
                old(agent)@,
                cancelled,
            ),
    {
        proof {
            reveal(transition::resume);
        }
        let n = self.call_count();
        match self.point() {
            Point::TruncatedStarted(i) => {
                let result = self.truncated_result(i);
                self.conclude(agent, i, result, Point::TruncatedEnded(i))
            },
            Point::TruncatedEnded(i) => {
                let result = self.truncated_result(i);
                self.append(agent, i, result, Point::TruncatedAppended(i))
            },
            Point::TruncatedAppended(i) => if i + 1 < n {
                self.announce(agent, i + 1, Point::TruncatedStarted(i + 1))
            } else {
                self.clear_terminate();
                self.end_turn()
            },
            _ => self.out_of_step(agent, cancelled),
        }
    }

    /// Go on after a published event of a tool batch.
    fn resume_batch(&mut self, agent: &mut Agent, cancelled: bool) -> (r: RunAction)
        requires
            old(self)@.wf(),
            old(self)@.point is Started || old(self)@.point is Refused || old(self)@.point is Updated
                || old(self)@.point is PolledFlush || old(self)@.point is PolledEnded
                || old(self)@.point is Completed || old(self)@.point is Flushing
                || old(self)@.point is ReviewedFlush || old(self)@.point is Ended
                || old(self)@.point is Appended,
        ensures
            at(*final(self), *final(agent), r) == transition::resume(
                old(self)@,
                old(agent)@,
                cancelled,
            ),
    {
        proof {
            reveal(transition::resume);
        }
        let point = self.point();
        match point {
            Point::Started(i) => self.prepare(agent, i),
            Point::Refused(i) => self.after_refusal(agent, i),
            Point::Updated => self.after_updates(agent, cancelled),
            Point::PolledFlush(_) => self.ask(point, RunAction::FlushUpdates),
            Point::PolledEnded => self.next_sibling(agent),
            Point::Completed(i) => self.after_completion(agent, i, cancelled),
            Point::Flushing(_) => self.ask(point, RunAction::FlushUpdates),
            Point::ReviewedFlush(_) => self.ask(point, RunAction::FlushUpdates),
            Point::Ended(i) => if self.is_parallel() {
                self.after_tool(agent)
            } else {
                self.append_slot(agent, i)
            },
            Point::Appended(i) => {
                assert(self@.parallel && i + 1 < self@.calls.len() ==> self@.covered(i + 1));
                self.after_append(agent, i)
            },
            _ => self.out_of_step(agent, cancelled),
        }
    }

    /// Go on after the published events of a point.
    fn resume(&mut self, agent: &mut Agent, cancelled: bool) -> (r: RunAction)
        requires
            old(self)@.wf(),
        ensures
            at(*final(self), *final(agent), r) == transition::resume(
                old(self)@,
                old(agent)@,
                cancelled,
            ),
    {
        proof {
            reveal(transition::resume);
        }
        match self.point() {
            Point::Opening => self.opened(agent, cancelled),
            Point::Injecting => self.inject(agent, cancelled),
            Point::Streaming => self.ask(Point::Streaming, RunAction::NextStreamEvent),
            Point::AssistantPublished => self.account(agent, cancelled),
            Point::UsagePublished => self.after_response(agent, cancelled),
            Point::FailedTurn => self.announce_end(agent, Point::FailedEnd),
            Point::FailedEnd => self.response_failed(agent, cancelled),
            Point::TruncatedStarted(_) | Point::TruncatedEnded(_) | Point::TruncatedAppended(
                _,
            ) => self.resume_truncated(agent, cancelled),
            Point::Started(_) | Point::Refused(_) | Point::Updated | Point::PolledFlush(_)
            | Point::PolledEnded | Point::Completed(_) | Point::Flushing(_)
            | Point::ReviewedFlush(_) | Point::Ended(_) | Point::Appended(_) => {
                self.resume_batch(agent, cancelled)
            },
            Point::TurnEnded => self.turn_ended(agent, cancelled),
            Point::TurnStarted => self.inject(agent, cancelled),
            Point::Closing => self.closed(agent),
            Point::FailureTurn => self.announce_end(agent, Point::FailureEnd),
            Point::FailureEnd => self.settle_failed(agent, cancelled),
            Point::CancelTurn => self.announce_end(agent, Point::CancelEnd),
            Point::CancelEnd => self.settle_stopped(agent, cancelled),
            _ => self.out_of_step(agent, cancelled),
        }
    }

    /// Take the waiting updates beside a tool.
    fn take_flushed(
        &mut self,
        agent: &mut Agent,
        updates: Vec<PendingToolUpdate>,
        cancelled: bool,
    ) -> (r: RunAction)
        requires
            old(self)@.wf(),
            old(self)@.outbox.len() == 0,
        ensures
            at(*final(self), *final(agent), r) == transition::next(
                old(self)@,
                old(agent)@,
                InputModel::Flushed(crate::model::views(updates@)),
                cancelled,
            ),
    {
        proof {
            reveal(transition::next);
        }
        let point = self.point();
        let empty = updates.len() == 0;
        match point {
            Point::PolledFlush(i) => if empty {
                self.sibling_flushed(agent, i, cancelled)
            } else {
                self.flushed(agent, updates, point)
            },
            Point::Flushing(i) => if empty {
                self.review(agent, i, Point::Reviewing(i), cancelled)
            } else {
                self.flushed(agent, updates, point)
            },
            Point::ReviewedFlush(i) => if empty {
                let result = self.slot_result(i);
                self.conclude(agent, i, result, Point::Ended(i))
            } else {
                self.flushed(agent, updates, point)
            },
            _ => self.out_of_step(agent, cancelled),
        }
    }

    /// Take the review of a result.
    fn take_after(
        &mut self,
        agent: &mut Agent,
        after: Result<AfterToolCall, HookError>,
        cancelled: bool,
    ) -> (r: RunAction)
        requires
            old(self)@.wf(),
            old(self)@.outbox.len() == 0,
        ensures
            at(*final(self), *final(agent), r) == transition::next(
                old(self)@,
                old(agent)@,
                InputModel::After(transition::after_model(after)),
                cancelled,
            ),
    {
        proof {
            reveal(transition::next);
            reveal(transition::settle_tool);
        }
        match self.point() {
            Point::PolledReview(i) => {
                let (result, terminate) = self.take_review(i, after);
                self.settle_tool(agent, i, result, terminate, Point::PolledEnded)
            },
            Point::Reviewing(i) => self.after_review(agent, i, after),
            _ => self.out_of_step(agent, cancelled),
        }
    }

    /// Take an outcome of the tools that execute.
    fn take_tools(&mut self, agent: &mut Agent, input: RunInput, cancelled: bool) -> (r: RunAction)
        requires
            old(self)@.wf(),
            old(self)@.outbox.len() == 0,
            input is Validated || input is Before || input is Launched || input is Updates
                || input is Completed || input is Polled,
        ensures
            at(*final(self), *final(agent), r) == transition::next(
                old(self)@,
                old(agent)@,
                input@,
                cancelled,
            ),
    {
        proof {
            reveal(transition::next);
        }
        match (self.point(), input) {
            (Point::Validating(i), RunInput::Validated(verdict)) => {
                self.validated(agent, i, verdict, cancelled)
            },
            (Point::Deciding(i), RunInput::Before(decision)) => {
                self.decided(agent, i, decision, cancelled)
            },
            (Point::Launching, RunInput::Launched) => {
                self.ask(Point::Running, RunAction::AwaitTools)
            },
            (Point::Running, RunInput::Updates(updates)) => {
                self.progressed(agent, updates, cancelled)
            },
            (Point::Running, RunInput::Completed { index, execution, updates }) => {
                if self.runs(index) {
                    self.completed(agent, index, execution, updates, cancelled)
                } else {
                    self.out_of_step(agent, cancelled)
                }
            },
            (Point::Polling(i), RunInput::Polled(execution)) => {
                self.note_execution(execution);
                self.ask(Point::PolledFlush(i), RunAction::FlushUpdates)
            },
            _ => self.out_of_step(agent, cancelled),
        }
    }

    /// Take an outcome of the model or of the turn's hooks.
    fn take_turn(&mut self, agent: &mut Agent, input: RunInput, cancelled: bool) -> (r: RunAction)
        requires
            old(self)@.wf(),
            old(self)@.outbox.len() == 0,
            input is Context || input is Converted || input is Connected || input is Stream
                || input is NextTurn || input is Stop,
        ensures
            at(*final(self), *final(agent), r) == transition::next(
                old(self)@,
                old(agent)@,
                input@,
                cancelled,
            ),
    {
        proof {
            reveal(transition::next);
        }
        match (self.point(), input) {
            (Point::Transforming, RunInput::Context(context)) => {
                self.ask(Point::Converting, RunAction::ConvertContext(context))
            },
            (Point::Converting, RunInput::Converted(text)) => {
                self.connect(agent, text, cancelled)
            },
            (Point::Connecting, RunInput::Connected) => {
                self.open_stream();
                self.ask(Point::Streaming, RunAction::NextStreamEvent)
            },
            (Point::Streaming, RunInput::Stream(event)) => match event {
                Some(event) => self.streamed(agent, event, cancelled),
                None => self.stream_ended(agent, cancelled),
            },
            (Point::Preparing, RunInput::NextTurn(next_turn)) => {
                self.prepared(agent, next_turn)
            },
            (Point::Asking, RunInput::Stop(stop)) => self.answered(agent, stop, cancelled),
            _ => self.out_of_step(agent, cancelled),
        }
    }

    /// Take an outcome.
    fn take(&mut self, agent: &mut Agent, input: RunInput, cancelled: bool) -> (r: RunAction)
        requires
            old(self)@.wf(),
        ensures
            at(*final(self), *final(agent), r) == transition::next(
                old(self)@,
                old(agent)@,
                input@,
                cancelled,
            ),
    {
        proof {
            reveal(transition::next);
        }
        let waiting = self.waiting();
        let point = self.point();
        match input {
            RunInput::Drive => {
                if point == Point::Created {
                    self.start(agent, cancelled)
                } else {
                    let error = transition_error("run", phase_name(self.phase()), "start_turn");
                    self.raise(agent, error, cancelled)
                }
            },
            RunInput::Published => {
                if waiting {
                    self.publish()
                } else if publishing(point) {
                    self.resume(agent, cancelled)
                } else {
                    self.out_of_step(agent, cancelled)
                }
            },
            RunInput::Failed(error) => {
                if point == Point::FailureTurn || point == Point::FailureEnd || point
                    == Point::CancelTurn || point == Point::CancelEnd {
                    if waiting {
                        self.publish()
                    } else {
                        self.resume(agent, cancelled)
                    }
                } else {
                    self.raise(agent, error, cancelled)
                }
            },
            _ if waiting => self.out_of_step(agent, cancelled),
            RunInput::Flushed(updates) => self.take_flushed(agent, updates, cancelled),
            RunInput::After(after) => self.take_after(agent, after, cancelled),
            RunInput::Validated(_) | RunInput::Before(_) | RunInput::Launched | RunInput::Updates(
                _,
            ) | RunInput::Completed { .. } | RunInput::Polled(_) => {
                self.take_tools(agent, input, cancelled)
            },
            _ => self.take_turn(agent, input, cancelled),
        }
    }

    /// An outcome that does not answer the pending action settles the run as failed. Every
    /// step keeps the invariant of the run.
    pub fn step(&mut self, agent: &mut Agent, input: RunInput, cancelled: bool) -> (r: RunAction)
        requires
            old(self).wf(),
        ensures
            final(self).wf(),
            transition::next(old(self)@, old(agent)@, input@, cancelled) == (Next {
                run: final(self)@,
                agent: final(agent)@,
                action: r@,
            }),
    {
        let count = self.call_count();
        proof {
            assert(self@.calls.len() == count);
            transition::law_steps_keep_the_invariant(self@, agent@, input@, cancelled);
        }
        self.take(agent, input, cancelled)
    }

    /// The validation of a call's arguments against the schema of its tool is done here.
    pub fn advance(&mut self, agent: &mut Agent, input: RunInput, cancelled: bool) -> (r: RunAction)
        requires
            old(self).wf(),
        ensures
            final(self).wf(),
            ({
                let first = transition::next(old(self)@, old(agent)@, input@, cancelled);
                match first.action {
                    ActionModel::ValidateArguments { call, schema } => exists|verdict: Result<
                        (),
                        ToolErrorModel,
                    >|
                        {
                            &&& judged(call.name, schema, call.arguments, verdict)
                            &&& #[trigger] transition::next(
                                first.run,
                                first.agent,
                                InputModel::Validated(verdict),
                                cancelled,
                            ) == (Next { run: final(self)@, agent: final(agent)@, action: r@ })
                        },
                    _ => first == (Next { run: final(self)@, agent: final(agent)@, action: r@ }),
                }
            }),
    {
        match self.step(agent, input, cancelled) {
            RunAction::ValidateArguments { call, schema } => {
                let verdict = validate_tool_arguments(call.name.as_str(), &schema, &call.arguments);
                let answer = RunInput::Validated(verdict);
                self.step(agent, answer, cancelled)
            },
            action => action,
        }
    }
}

/// Whether a run waits at its point for the publication of an event.
fn publishing(point: Point) -> (r: bool)
    ensures
        r == transition::publishing(point),
{
    match point {
        Point::Opening | Point::Injecting | Point::Streaming | Point::AssistantPublished
        | Point::UsagePublished | Point::FailedTurn | Point::FailedEnd
        | Point::TruncatedStarted(_) | Point::TruncatedEnded(_) | Point::TruncatedAppended(_)
        | Point::Started(_) | Point::Refused(_) | Point::Updated | Point::PolledFlush(_)
        | Point::PolledEnded | Point::Completed(_) | Point::Flushing(_)
        | Point::ReviewedFlush(_) | Point::Ended(_) | Point::Appended(_) | Point::TurnEnded
        | Point::TurnStarted | Point::Closing | Point::FailureTurn | Point::FailureEnd
        | Point::CancelTurn | Point::CancelEnd => true,
        _ => false,
    }
}

} // verus!
