//! Read-side facade over the journal and the dispute index.

use vstd::prelude::*;

use crate::envelope::EventEnvelope;
use crate::error::PaymentError;
use crate::event::TransactionTypeEvent;
use crate::indexes::InMemoryDisputeIndex;
use crate::journal::InMemoryJournal;

verus! {

/// Whether `e` is a base transaction: a deposit or a withdrawal, the only
/// event kinds a dispute can refer to.
pub open spec fn is_base_event(e: TransactionTypeEvent) -> bool {
    e matches TransactionTypeEvent::Deposited(_) || e matches TransactionTypeEvent::Withdrawn(_)
}

/// The first `Deposited` or `Withdrawn` event appended for `tx_id`, if
/// any; dispute-family events are skipped.
pub open spec fn first_base_tx(log: Seq<EventEnvelope>, tx_id: u32) -> Option<
    TransactionTypeEvent,
>
    decreases log.len(),
{
    if log.len() == 0 {
        None
    } else if log[0].tx_id == tx_id && is_base_event(log[0].event) {
        Some(log[0].event)
    } else {
        first_base_tx(log.drop_first(), tx_id)
    }
}

/// Whether `e` settles a dispute: a resolve or a chargeback.
pub open spec fn is_settlement_event(e: TransactionTypeEvent) -> bool {
    e matches TransactionTypeEvent::Resolved(_) || e matches TransactionTypeEvent::Chargebacked(_)
}

/// Whether `tx_id` has ever been settled: some envelope for it carries a
/// `Resolved` or `Chargebacked` event. The log is append-only, so a
/// settled transaction stays settled.
pub open spec fn was_settled(log: Seq<EventEnvelope>, tx_id: u32) -> bool {
    exists|i: int|
        0 <= i < log.len() && (#[trigger] log[i]).tx_id == tx_id && is_settlement_event(
            log[i].event,
        )
}

/// A found base transaction is an event of the log.
pub proof fn lemma_first_base_tx_in_log(log: Seq<EventEnvelope>, tx_id: u32)
    ensures
        first_base_tx(log, tx_id) matches Some(t) ==> exists|k: int|
            0 <= k < log.len() && (#[trigger] log[k]).event == t,
    decreases log.len(),
{
    if log.len() > 0 {
        if log[0].tx_id == tx_id && is_base_event(log[0].event) {
        } else {
            lemma_first_base_tx_in_log(log.drop_first(), tx_id);
            match first_base_tx(log, tx_id) {
                Some(t) => {
                    let k = choose|k: int|
                        0 <= k < log.drop_first().len() && (#[trigger] log.drop_first()[k]).event
                            == t;
                    assert(log[k + 1].event == t);
                },
                None => {},
            }
        }
    }
}

/// Transaction lookup over a journal and a dispute index: the read-only
/// queries the command handlers' load phase needs.
pub struct JournalTransactionLookup<'a> {
    journal: &'a InMemoryJournal,
    dispute_index: &'a InMemoryDisputeIndex,
}

impl<'a> JournalTransactionLookup<'a> {
    /// The journal being read.
    pub closed spec fn spec_journal(self) -> InMemoryJournal {
        *self.journal
    }

    /// The dispute index being read.
    pub closed spec fn spec_dispute_index(self) -> InMemoryDisputeIndex {
        *self.dispute_index
    }

    /// Both underlying structures are well formed.
    pub open spec fn wf(self) -> bool {
        &&& self.spec_journal().wf()
        &&& self.spec_dispute_index().wf()
    }

    /// A lookup over `journal` and `dispute_index`.
    pub fn new(journal: &'a InMemoryJournal, dispute_index: &'a InMemoryDisputeIndex) -> (r: Self)
        ensures
            r.spec_journal() == *journal,
            r.spec_dispute_index() == *dispute_index,
    {
        Self { journal, dispute_index }
    }

    /// The original transaction behind `tx_id`: the first `Deposited` or
    /// `Withdrawn` event appended for it, or `None` if there is no such
    /// event.
    pub fn find_transaction(&self, tx_id: u32) -> (r: Result<
        Option<TransactionTypeEvent>,
        PaymentError,
    >)
        requires
            self.wf(),
        ensures
            r matches Ok(t) && t == first_base_tx(self.spec_journal().log(), tx_id),
    {
        let n = self.journal.event_count();
        let ghost log = self.spec_journal().log();
        let mut i: usize = 0;
        proof {
            assert(log.skip(0) =~= log);
        }
        while i < n
            invariant
                n == log.len(),
                log == self.spec_journal().log(),
                self.wf(),
                0 <= i <= n,
                first_base_tx(log, tx_id) == first_base_tx(log.skip(i as int), tx_id),
            decreases n - i,
        {
            proof {
                assert(log.skip(i as int)[0] == log[i as int]);
                assert(log.skip(i as int).drop_first() =~= log.skip(i + 1));
            }
            let envelope = self.journal.envelope_at(i);
            if envelope.tx_id == tx_id {
                match &envelope.event {
                    TransactionTypeEvent::Deposited(_) | TransactionTypeEvent::Withdrawn(_) => {
                        return Ok(Some(envelope.event));
                    },
                    _ => {},
                }
            }
            i += 1;
        }
        proof {
            assert(log.skip(n as int) =~= Seq::<EventEnvelope>::empty());
        }
        Ok(None)
    }

    /// Whether `tx_id` has already been settled by a resolve or a
    /// chargeback, by the journal log.
    pub fn was_settled(&self, tx_id: u32) -> (r: Result<bool, PaymentError>)
        requires
            self.wf(),
        ensures
            r matches Ok(d) && d == was_settled(self.spec_journal().log(), tx_id),
    {
        let n = self.journal.event_count();
        let ghost log = self.spec_journal().log();
        let mut i: usize = 0;
        while i < n
            invariant
                n == log.len(),
                log == self.spec_journal().log(),
                self.wf(),
                0 <= i <= n,
                forall|j: int|
                    0 <= j < i ==> !((#[trigger] log[j]).tx_id == tx_id && is_settlement_event(
                        log[j].event,
                    )),
            decreases n - i,
        {
            let envelope = self.journal.envelope_at(i);
            if envelope.tx_id == tx_id {
                match &envelope.event {
                    TransactionTypeEvent::Resolved(_) | TransactionTypeEvent::Chargebacked(_) => {
                        proof {
                            assert(log[i as int].tx_id == tx_id && is_settlement_event(
                                log[i as int].event,
                            ));
                        }
                        return Ok(true);
                    },
                    _ => {},
                }
            }
            i += 1;
        }
        Ok(false)
    }

    /// Whether `tx_id` is currently under dispute, by the dispute index.
    pub fn is_disputed(&self, tx_id: u32) -> (r: Result<bool, PaymentError>)
        requires
            self.wf(),
        ensures
            r matches Ok(d) && d == self.spec_dispute_index().disputed().contains_key(tx_id),
    {
        Ok(self.dispute_index.is_disputed(tx_id))
    }
}

} // verus!
