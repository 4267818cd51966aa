//! Post-persistence callbacks that keep the dispute index consistent with
//! the event log.

use vstd::prelude::*;

use crate::event::{Chargebacked, Disputed, Resolved, TransactionTypeEvent};
use crate::indexes::InMemoryDisputeIndex;

verus! {

/// The dispute index after the built-in callbacks have seen `ev`:
/// a dispute inserts its transaction, a resolve or chargeback removes it,
/// deposits and withdrawals leave the index alone.
pub open spec fn index_after_callbacks(m: Map<u32, i64>, ev: TransactionTypeEvent) -> Map<
    u32,
    i64,
> {
    match ev {
        TransactionTypeEvent::Disputed(d) => m.insert(d.tx_id, d.amount),
        TransactionTypeEvent::Resolved(r) => m.remove(r.tx_id),
        TransactionTypeEvent::Chargebacked(c) => m.remove(c.tx_id),
        _ => m,
    }
}

/// Callback adapter: forwards persisted dispute-family events to the
/// dispute index.
pub struct DisputeIndexCallback;

impl DisputeIndexCallback {
    /// A new callback adapter.
    pub fn new() -> (r: Self) {
        Self
    }

    /// A `Disputed` event was persisted: mark its transaction disputed.
    pub fn on_disputed(&self, event: &Disputed, index: &mut InMemoryDisputeIndex)
        requires
            old(index).wf(),
        ensures
            final(index).wf(),
            final(index).disputed() == old(index).disputed().insert(event.tx_id, event.amount),
    {
        index.mark_disputed(event.tx_id, event.amount);
    }

    /// A `Resolved` event was persisted: unmark its transaction.
    pub fn on_resolved(&self, event: &Resolved, index: &mut InMemoryDisputeIndex)
        requires
            old(index).wf(),
        ensures
            final(index).wf(),
            final(index).disputed() == old(index).disputed().remove(event.tx_id),
    {
        index.unmark_disputed(event.tx_id);
    }

    /// A `Chargebacked` event was persisted: unmark its transaction.
    pub fn on_chargebacked(&self, event: &Chargebacked, index: &mut InMemoryDisputeIndex)
        requires
            old(index).wf(),
        ensures
            final(index).wf(),
            final(index).disputed() == old(index).disputed().remove(event.tx_id),
    {
        index.unmark_disputed(event.tx_id);
    }
}

} // verus!
