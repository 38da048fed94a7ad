//! Updates of executing tools that wait for publication.

use crate::model::Duplicate;
use crate::state::{ToolCallId, ToolCallSet};
use crate::transition::{PendingToolUpdate, PendingUpdateModel};
use vstd::prelude::*;

verus! {

broadcast use crate::model::group_views;

/// Updates that wait for publication, and the calls that may not add more.
#[derive(Debug)]
pub struct PendingToolUpdates {
    updates: Vec<PendingToolUpdate>,
    closed: ToolCallSet,
}

/// Model of [`PendingToolUpdates`].
#[verifier::ext_equal]
pub struct WaitingModel {
    pub updates: Seq<PendingUpdateModel>,
    pub closed: Set<Seq<char>>,
}

impl View for PendingToolUpdates {
    type V = WaitingModel;

    closed spec fn view(&self) -> WaitingModel {
        WaitingModel { updates: crate::model::views(self.updates@), closed: self.closed@ }
    }
}

impl WaitingModel {
    /// The updates with one more, unless its call may not add any.
    pub open spec fn pushed(self, update: PendingUpdateModel) -> WaitingModel {
        if self.closed.contains(update.tool_call_id) {
            self
        } else {
            WaitingModel { updates: self.updates.push(update), ..self }
        }
    }
}

impl PendingToolUpdates {
    /// Nothing waits, and every call may add updates.
    pub fn new() -> (r: Self)
        ensures
            r@ == (WaitingModel { updates: Seq::empty(), closed: Set::empty() }),
    {
        let r = PendingToolUpdates { updates: Vec::new(), closed: ToolCallSet::new() };
        assert(r@ =~= (WaitingModel { updates: Seq::empty(), closed: Set::empty() }));
        r
    }

    /// Add an update, and say whether it waits. The update of a closed call is discarded.
    pub fn push(&mut self, update: PendingToolUpdate) -> (r: bool)
        ensures
            r == !old(self)@.closed.contains(update@.tool_call_id),
            final(self)@ == old(self)@.pushed(update@),
    {
        if self.closed.contains(&update.tool_call_id) {
            return false;
        }
        self.updates.push(update);
        true
    }

    /// Take the updates that wait, if any do.
    pub fn take(&mut self) -> (r: Option<Vec<PendingToolUpdate>>)
        ensures
            match r {
                Some(updates) => old(self)@.updates.len() > 0 && crate::model::views(updates@)
                    == old(self)@.updates && final(self)@ == (WaitingModel {
                    updates: Seq::empty(),
                    ..old(self)@
                }),
                None => old(self)@.updates.len() == 0 && final(self)@ == old(self)@,
            },
    {
        if self.updates.len() == 0 {
            return None;
        }
        let mut taken: Vec<PendingToolUpdate> = Vec::new();
        taken.append(&mut self.updates);
        assert(self@ =~= (WaitingModel { updates: Seq::empty(), ..old(self)@ }));
        assert(crate::model::views(taken@) =~= old(self)@.updates);
        Some(taken)
    }

    /// Let a call add no more updates. Those that already wait stay.
    pub fn close(&mut self, call_id: &ToolCallId)
        ensures
            final(self)@ == (WaitingModel {
                closed: old(self)@.closed.insert(call_id@),
                ..old(self)@
            }),
    {
        self.closed.insert(call_id.duplicate());
    }
}

/// Once a call is closed, none of its later updates is ever published, whatever is pushed in
/// between.
pub proof fn law_closed_calls_stay_silent(
    waiting: WaitingModel,
    between: PendingUpdateModel,
    late: PendingUpdateModel,
)
    requires
        waiting.closed.contains(late.tool_call_id),
    ensures
        waiting.pushed(between).pushed(late) == waiting.pushed(between),
{
}

} // verus!
