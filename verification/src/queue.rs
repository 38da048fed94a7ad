//! Explicit steering and follow-up queues.
//!
//! These are two named queues rather than a generic mailbox. The run loop decides when each
//! queue may drain: steering is considered at active-turn boundaries, while follow-up is
//! considered only when a run would otherwise become idle.

use crate::model::{duplicate_all, Duplicate};
use vstd::prelude::*;

verus! {

broadcast use crate::model::group_views;

/// One queued user message.
#[derive(Clone, Debug, Eq, PartialEq)]
pub struct QueuedMessage {
    /// Position in the order of insertion, counted from one.
    pub sequence: u64,
    /// Message text.
    pub content: String,
}

/// Model of a [`QueuedMessage`].
#[verifier::ext_equal]
pub struct QueuedModel {
    pub sequence: u64,
    pub content: Seq<char>,
}

impl View for QueuedMessage {
    type V = QueuedModel;

    open spec fn view(&self) -> QueuedModel {
        QueuedModel { sequence: self.sequence, content: self.content@ }
    }
}

impl Duplicate for QueuedMessage {
    fn duplicate(&self) -> (r: Self) {
        QueuedMessage { sequence: self.sequence, content: self.content.clone() }
    }
}

/// How many messages one drain takes.
#[derive(Clone, Copy, Debug, Eq, PartialEq, Structural)]
pub enum QueueMode {
    /// The oldest message only.
    OneAtATime,
    /// Every queued message.
    All,
}

impl Default for QueueMode {
    fn default() -> (r: Self)
        ensures
            r == QueueMode::OneAtATime,
    {
        QueueMode::OneAtATime
    }
}

/// Model of a queue: the last sequence number given out, and the waiting messages in order.
#[verifier::ext_equal]
pub struct QueueModel {
    pub next_sequence: u64,
    pub entries: Seq<QueuedModel>,
}

impl QueueModel {
    /// A queue that never held a message.
    pub open spec fn fresh() -> QueueModel {
        QueueModel { next_sequence: 0, entries: Seq::empty() }
    }

    /// The sequence number of the next message.
    pub open spec fn upcoming(self) -> u64 {
        crate::state::saturating_sum(self.next_sequence, 1)
    }

    /// The queue with one more message at its end.
    pub open spec fn pushed(self, content: Seq<char>) -> QueueModel {
        QueueModel {
            next_sequence: self.upcoming(),
            entries: self.entries.push(QueuedModel { sequence: self.upcoming(), content }),
        }
    }

    /// The messages that one drain takes.
    pub open spec fn drained(self, mode: QueueMode) -> Seq<QueuedModel> {
        match mode {
            QueueMode::OneAtATime => if self.entries.len() == 0 {
                Seq::empty()
            } else {
                self.entries.take(1)
            },
            QueueMode::All => self.entries,
        }
    }

    /// The queue after one drain.
    pub open spec fn after_drain(self, mode: QueueMode) -> QueueModel {
        QueueModel {
            next_sequence: self.next_sequence,
            entries: self.entries.skip(self.drained(mode).len() as int),
        }
    }

    /// The queue without its messages.
    pub open spec fn cleared(self) -> QueueModel {
        QueueModel { next_sequence: self.next_sequence, entries: Seq::empty() }
    }
}

/// A drain takes the front of the queue and leaves the rest in order: nothing is lost,
/// repeated or reordered.
pub proof fn law_drain_keeps_insertion_order(queue: QueueModel, mode: QueueMode)
    ensures
        queue.drained(mode) + queue.after_drain(mode).entries == queue.entries,
{
    assert(queue.drained(mode) + queue.after_drain(mode).entries =~= queue.entries);
}

/// Draining one message at a time until the queue is empty gives what draining all at once gives.
pub proof fn law_single_drains_add_up(queue: QueueModel)
    requires
        queue.entries.len() > 0,
    ensures
        queue.drained(QueueMode::OneAtATime) + queue.after_drain(
            QueueMode::OneAtATime,
        ).drained(QueueMode::All) == queue.drained(QueueMode::All),
{
    law_drain_keeps_insertion_order(queue, QueueMode::OneAtATime);
}

#[derive(Clone, Debug)]
struct MessageQueue {
    next_sequence: u64,
    entries: Vec<QueuedMessage>,
}

impl View for MessageQueue {
    type V = QueueModel;

    closed spec fn view(&self) -> QueueModel {
        QueueModel {
            next_sequence: self.next_sequence,
            entries: crate::model::views(self.entries@),
        }
    }
}

impl MessageQueue {
    fn fresh() -> (r: Self)
        ensures
            r@ == QueueModel::fresh(),
    {
        MessageQueue { next_sequence: 0, entries: Vec::new() }
    }

    fn push(&mut self, content: String) -> (r: u64)
        ensures
            final(self)@ == old(self)@.pushed(content@),
            r == old(self)@.upcoming(),
    {
        self.next_sequence = self.next_sequence.saturating_add(1);
        let sequence = self.next_sequence;
        self.entries.push(QueuedMessage { sequence, content });
        sequence
    }

    fn pop(&mut self) -> (r: Option<QueuedMessage>)
        ensures
            r is None <==> old(self)@.entries.len() == 0,
            r matches Some(message) ==> message@ == old(self)@.entries[0],
            final(self)@ == old(self)@.after_drain(QueueMode::OneAtATime),
    {
        let ghost before = self@;
        let r = if self.entries.len() == 0 {
            None
        } else {
            Some(self.entries.remove(0))
        };
        assert(self@.entries =~= before.after_drain(QueueMode::OneAtATime).entries);
        r
    }

    fn drain(&mut self, mode: QueueMode) -> (r: Vec<QueuedMessage>)
        ensures
            crate::model::views(r@) == old(self)@.drained(mode),
            final(self)@ == old(self)@.after_drain(mode),
    {
        let ghost before = self@;
        let mut out: Vec<QueuedMessage> = Vec::new();
        match mode {
            QueueMode::OneAtATime => {
                if let Some(message) = self.pop() {
                    out.push(message);
                }
                assert(crate::model::views(out@) =~= before.drained(mode));
            },
            QueueMode::All => {
                out.append(&mut self.entries);
                assert(self@.entries =~= before.after_drain(mode).entries);
                assert(crate::model::views(out@) =~= before.drained(mode));
            },
        }
        out
    }

    fn clear(&mut self)
        ensures
            final(self)@ == old(self)@.cleared(),
    {
        self.entries.clear();
        assert(self@.entries =~= Seq::<QueuedModel>::empty());
    }

    fn snapshot(&self) -> (r: Vec<QueuedMessage>)
        ensures
            crate::model::views(r@) == self@.entries,
    {
        duplicate_all(&self.entries)
    }

    fn len(&self) -> (r: usize)
        ensures
            r == self@.entries.len(),
    {
        self.entries.len()
    }
}

/// Messages that steer an active run.
#[derive(Clone, Debug)]
pub struct SteeringQueue(MessageQueue);

/// Messages that run only at the idle boundary.
#[derive(Clone, Debug)]
pub struct FollowUpQueue(MessageQueue);

impl View for SteeringQueue {
    type V = QueueModel;

    closed spec fn view(&self) -> QueueModel {
        self.0@
    }
}

impl View for FollowUpQueue {
    type V = QueueModel;

    closed spec fn view(&self) -> QueueModel {
        self.0@
    }
}

impl Default for SteeringQueue {
    fn default() -> (r: Self)
        ensures
            r@ == QueueModel::fresh(),
    {
        SteeringQueue(MessageQueue::fresh())
    }
}

impl Default for FollowUpQueue {
    fn default() -> (r: Self)
        ensures
            r@ == QueueModel::fresh(),
    {
        FollowUpQueue(MessageQueue::fresh())
    }
}

impl SteeringQueue {
    /// Append a message and return its sequence number.
    pub fn push(&mut self, content: String) -> (r: u64)
        ensures
            final(self)@ == old(self)@.pushed(content@),
            r == old(self)@.upcoming(),
    {
        self.0.push(content)
    }

    /// Take the oldest message.
    pub fn pop(&mut self) -> (r: Option<QueuedMessage>)
        ensures
            r is None <==> old(self)@.entries.len() == 0,
            r matches Some(message) ==> message@ == old(self)@.entries[0],
            final(self)@ == old(self)@.after_drain(QueueMode::OneAtATime),
    {
        self.0.pop()
    }

    /// Take messages from the front as the mode says.
    pub fn drain(&mut self, mode: QueueMode) -> (r: Vec<QueuedMessage>)
        ensures
            crate::model::views(r@) == old(self)@.drained(mode),
            final(self)@ == old(self)@.after_drain(mode),
    {
        self.0.drain(mode)
    }

    /// Drop every queued message.
    pub fn clear(&mut self)
        ensures
            final(self)@ == old(self)@.cleared(),
    {
        self.0.clear()
    }

    /// Copy the queued messages in order.
    pub fn snapshot(&self) -> (r: Vec<QueuedMessage>)
        ensures
            crate::model::views(r@) == self@.entries,
    {
        self.0.snapshot()
    }

    /// Whether no message waits.
    pub fn is_empty(&self) -> (r: bool)
        ensures
            r == (self@.entries.len() == 0),
    {
        self.0.len() == 0
    }

    /// Number of waiting messages.
    pub fn len(&self) -> (r: usize)
        ensures
            r == self@.entries.len(),
    {
        self.0.len()
    }
}

impl FollowUpQueue {
    /// Append a message and return its sequence number.
    pub fn push(&mut self, content: String) -> (r: u64)
        ensures
            final(self)@ == old(self)@.pushed(content@),
            r == old(self)@.upcoming(),
    {
        self.0.push(content)
    }

    /// Take the oldest message.
    pub fn pop(&mut self) -> (r: Option<QueuedMessage>)
        ensures
            r is None <==> old(self)@.entries.len() == 0,
            r matches Some(message) ==> message@ == old(self)@.entries[0],
            final(self)@ == old(self)@.after_drain(QueueMode::OneAtATime),
    {
        self.0.pop()
    }

    /// Take messages from the front as the mode says.
    pub fn drain(&mut self, mode: QueueMode) -> (r: Vec<QueuedMessage>)
        ensures
            crate::model::views(r@) == old(self)@.drained(mode),
            final(self)@ == old(self)@.after_drain(mode),
    {
        self.0.drain(mode)
    }

    /// Drop every queued message.
    pub fn clear(&mut self)
        ensures
            final(self)@ == old(self)@.cleared(),
    {
        self.0.clear()
    }

    /// Copy the queued messages in order.
    pub fn snapshot(&self) -> (r: Vec<QueuedMessage>)
        ensures
            crate::model::views(r@) == self@.entries,
    {
        self.0.snapshot()
    }

    /// Whether no message waits.
    pub fn is_empty(&self) -> (r: bool)
        ensures
            r == (self@.entries.len() == 0),
    {
        self.0.len() == 0
    }

    /// Number of waiting messages.
    pub fn len(&self) -> (r: usize)
        ensures
            r == self@.entries.len(),
    {
        self.0.len()
    }
}

/// Both queues of one agent.
#[derive(Clone, Debug)]
pub struct AgentQueues {
    /// Messages that steer an active run.
    pub steering: SteeringQueue,
    /// Messages that run only at the idle boundary.
    pub follow_up: FollowUpQueue,
}

/// Model of [`AgentQueues`].
#[verifier::ext_equal]
pub struct QueuesModel {
    pub steering: QueueModel,
    pub follow_up: QueueModel,
}

impl QueuesModel {
    /// Both queues without their messages.
    pub open spec fn cleared(self) -> QueuesModel {
        QueuesModel { steering: self.steering.cleared(), follow_up: self.follow_up.cleared() }
    }

    /// Two queues that never held a message.
    pub open spec fn fresh() -> QueuesModel {
        QueuesModel { steering: QueueModel::fresh(), follow_up: QueueModel::fresh() }
    }
}

impl View for AgentQueues {
    type V = QueuesModel;

    open spec fn view(&self) -> QueuesModel {
        QueuesModel { steering: self.steering@, follow_up: self.follow_up@ }
    }
}

impl Default for AgentQueues {
    fn default() -> (r: Self)
        ensures
            r@ == QueuesModel::fresh(),
    {
        AgentQueues { steering: SteeringQueue::default(), follow_up: FollowUpQueue::default() }
    }
}

impl AgentQueues {
    /// Drop every queued message of both queues.
    pub fn clear(&mut self)
        ensures
            final(self)@ == old(self)@.cleared(),
    {
        self.steering.clear();
        self.follow_up.clear();
    }
}

} // verus!
