//! The journal: an append-only event log with global sequence assignment
//! and deduplication.

use vstd::prelude::*;

use crate::envelope::{env_matches, DeduplicationKey, EventEnvelope, EventMetadata};
use crate::error::{PaymentError, TransactionError};
use crate::event::TransactionTypeEvent;

verus! {

/// Whether some envelope in `log` carries the deduplication key `key`.
pub open spec fn has_dedup_key(log: Seq<EventEnvelope>, key: Seq<char>) -> bool {
    exists|i: int| 0 <= i < log.len() && log[i].deduplication_key@ == key
}

/// The position of an envelope carrying `key` in `log`. Under
/// [`InMemoryJournal::wf`] that position is unique.
pub open spec fn dedup_index_of(log: Seq<EventEnvelope>, key: Seq<char>) -> int {
    choose|i: int| 0 <= i < log.len() && log[i].deduplication_key@ == key
}

/// The envelopes of `log` whose transaction id is `tx_id`, in log order.
pub open spec fn events_for_tx(log: Seq<EventEnvelope>, tx_id: u32) -> Seq<EventEnvelope>
    decreases log.len(),
{
    if log.len() == 0 {
        Seq::empty()
    } else if log.last().tx_id == tx_id {
        events_for_tx(log.drop_last(), tx_id).push(log.last())
    } else {
        events_for_tx(log.drop_last(), tx_id)
    }
}

/// In-memory journal: the ordered event log. The deduplication and
/// transaction-id lookups are answered from the log itself, which keeps
/// one structure authoritative.
#[derive(Debug)]
pub struct InMemoryJournal {
    events: Vec<EventEnvelope>,
}

impl InMemoryJournal {
    /// The log as a sequence, position `i` holding the envelope with
    /// sequence number `i + 1`.
    pub closed spec fn log(self) -> Seq<EventEnvelope> {
        self.events@
    }

    /// Well-formedness:
    /// - sequence numbers are contiguous: the envelope at position `i`
    ///   carries sequence number `i + 1`;
    /// - deduplication keys are unique across the log.
    pub open spec fn wf(self) -> bool {
        &&& forall|i: int|
            0 <= i < self.log().len() ==> (#[trigger] self.log()[i]).sequence_nr == i + 1
        &&& forall|i: int, j: int|
            0 <= i < self.log().len() && 0 <= j < self.log().len() && i != j
                ==> (#[trigger] self.log()[i]).deduplication_key@
                    != (#[trigger] self.log()[j]).deduplication_key@
    }

    /// An empty journal.
    pub fn new() -> (r: Self)
        ensures
            r.wf(),
            r.log().len() == 0,
    {
        Self { events: Vec::new() }
    }

    /// How many events the log holds.
    pub fn event_count(&self) -> (n: usize)
        ensures
            n == self.log().len(),
    {
        self.events.len()
    }

    /// The envelope at position `i` of the log.
    pub fn envelope_at(&self, i: usize) -> (r: &EventEnvelope)
        requires
            i < self.log().len(),
        ensures
            *r == self.log()[i as int],
    {
        &self.events[i]
    }

    /// The sequence number of the envelope persisted under `key`, if the
    /// key has been seen.
    pub fn find_dedup(&self, key: &DeduplicationKey) -> (r: Option<u64>)
        requires
            self.wf(),
        ensures
            r == if has_dedup_key(self.log(), key@) {
                Some(self.log()[dedup_index_of(self.log(), key@)].sequence_nr)
            } else {
                None::<u64>
            },
    {
        let n = self.events.len();
        let mut i: usize = 0;
        while i < n
            invariant
                self.wf(),
                n == self.log().len(),
                0 <= i <= n,
                forall|j: int|
                    0 <= j < i ==> (#[trigger] self.log()[j]).deduplication_key@ != key@,
            decreases n - i,
        {
            if self.events[i].deduplication_key == *key {
                proof {
                    assert(has_dedup_key(self.log(), key@)) by {
                        assert(self.log()[i as int].deduplication_key@ == key@);
                    }
                    let k = dedup_index_of(self.log(), key@);
                    assert(0 <= k < self.log().len() && self.log()[k].deduplication_key@ == key@)
                        by {
                        assert(self.log()[i as int].deduplication_key@ == key@);
                    }
                    assert(k == i as int);
                }
                return Some(self.events[i].sequence_nr);
            }
            i += 1;
        }
        None
    }

    /// Append `event` to the log under `metadata`.
    ///
    /// If the deduplication key is already present, the existing envelope
    /// is returned unchanged — even if the supplied event differs — and
    /// the log is not modified. Otherwise the next sequence number is
    /// assigned and the new envelope is appended and returned. Fails only
    /// when the sequence space is exhausted.
    pub fn append(&mut self, event: TransactionTypeEvent, metadata: EventMetadata) -> (r: Result<
        EventEnvelope,
        PaymentError,
    >)
        requires
            old(self).wf(),
        ensures
            final(self).wf(),
            has_dedup_key(old(self).log(), metadata.deduplication_key@) ==> {
                &&& final(self).log() == old(self).log()
                &&& r matches Ok(e) && env_matches(
                    e,
                    old(self).log()[dedup_index_of(old(self).log(), metadata.deduplication_key@)],
                )
            },
            !has_dedup_key(old(self).log(), metadata.deduplication_key@) && old(self).log().len()
                < u64::MAX ==> {
                &&& final(self).log().len() == old(self).log().len() + 1
                &&& forall|i: int|
                    0 <= i < old(self).log().len() ==> final(self).log()[i] == old(self).log()[i]
                &&& final(self).log().last().sequence_nr == old(self).log().len() + 1
                &&& final(self).log().last().event == event
                &&& final(self).log().last().timestamp == metadata.timestamp
                &&& final(self).log().last().client_id == metadata.client_id
                &&& final(self).log().last().tx_id == metadata.tx_id
                &&& final(self).log().last().deduplication_key@ == metadata.deduplication_key@
                &&& r matches Ok(e) && env_matches(e, final(self).log().last())
            },
            !has_dedup_key(old(self).log(), metadata.deduplication_key@) && old(self).log().len()
                >= u64::MAX ==> {
                &&& final(self).log() == old(self).log()
                &&& r matches Err(PaymentError::Transaction(TransactionError::GeneralError(_)))
            },
    {
        let n = self.events.len();
        let mut i: usize = 0;
        while i < n
            invariant
                *self == *old(self),
                old(self).wf(),
                n == self.log().len(),
                0 <= i <= n,
                forall|j: int|
                    0 <= j < i ==> (#[trigger] self.log()[j]).deduplication_key@
                        != metadata.deduplication_key@,
            decreases n - i,
        {
            if self.events[i].deduplication_key == metadata.deduplication_key {
                proof {
                    let key = metadata.deduplication_key@;
                    assert(has_dedup_key(self.log(), key)) by {
                        assert(self.log()[i as int].deduplication_key@ == key);
                    }
                    let k = dedup_index_of(self.log(), key);
                    assert(0 <= k < self.log().len() && self.log()[k].deduplication_key@ == key)
                        by {
                        assert(self.log()[i as int].deduplication_key@ == key);
                    }
                    assert(k == i as int);
                }
                return Ok(self.events[i].clone());
            }
            i += 1;
        }
        match (n as u64).checked_add(1) {
            Some(sequence_nr) => {
                let envelope = EventEnvelope {
                    sequence_nr,
                    event,
                    timestamp: metadata.timestamp,
                    client_id: metadata.client_id,
                    tx_id: metadata.tx_id,
                    deduplication_key: metadata.deduplication_key,
                };
                let result = envelope.clone();
                self.events.push(envelope);
                Ok(result)
            },
            None => Err(
                PaymentError::Transaction(
                    TransactionError::GeneralError(String::from_str("journal sequence space exhausted")),
                ),
            ),
        }
    }

    /// All envelopes with `sequence_nr >= from` (all of them when `from`
    /// is absent), in strictly increasing sequence order.
    pub fn replay(&self, from_sequence: Option<u64>) -> (r: Result<Vec<EventEnvelope>, PaymentError>)
        requires
            self.wf(),
        ensures
            r matches Ok(v) && {
                let start = Self::replay_start(self.log(), from_sequence);
                &&& v@.len() == self.log().len() - start
                &&& forall|i: int|
                    0 <= i < v@.len() ==> env_matches(#[trigger] v@[i], self.log()[start + i])
            },
    {
        let from: u64 = match from_sequence {
            Some(f) => f,
            None => 0,
        };
        let n = self.events.len();
        let start: usize = if from <= 1 {
            0
        } else if from > n as u64 {
            n
        } else {
            (from - 1) as usize
        };
        let mut result: Vec<EventEnvelope> = Vec::new();
        let mut i: usize = start;
        while i < n
            invariant
                n == self.log().len(),
                start <= i <= n,
                result@.len() == i - start,
                forall|j: int|
                    0 <= j < result@.len() ==> env_matches(
                        #[trigger] result@[j],
                        self.log()[start + j],
                    ),
            decreases n - i,
        {
            result.push(self.events[i].clone());
            i += 1;
        }
        Ok(result)
    }

    /// The position where a replay from `from_sequence` starts: under
    /// [`InMemoryJournal::wf`] the envelopes with a lower sequence number
    /// are exactly the ones before it.
    pub open spec fn replay_start(log: Seq<EventEnvelope>, from_sequence: Option<u64>) -> int {
        let from = match from_sequence {
            Some(f) => f as int,
            None => 0,
        };
        if from <= 1 {
            0
        } else if from > log.len() {
            log.len() as int
        } else {
            from - 1
        }
    }

    /// The highest assigned sequence number; absent iff the log is empty.
    pub fn highest_sequence(&self) -> (r: Result<Option<u64>, PaymentError>)
        requires
            self.wf(),
        ensures
            r matches Ok(h) && h == (if self.log().len() == 0 {
                None::<u64>
            } else {
                Some(self.log().len() as u64)
            }),
    {
        if self.events.len() == 0 {
            Ok(None)
        } else {
            Ok(Some(self.events.len() as u64))
        }
    }

    /// All envelopes whose transaction id equals `tx_id`, in append order.
    pub fn find_by_tx_id(&self, tx_id: u32) -> (r: Result<Vec<EventEnvelope>, PaymentError>)
        requires
            self.wf(),
        ensures
            r matches Ok(v) && {
                let expected = events_for_tx(self.log(), tx_id);
                &&& v@.len() == expected.len()
                &&& forall|i: int|
                    0 <= i < v@.len() ==> env_matches(#[trigger] v@[i], expected[i])
            },
    {
        let n = self.events.len();
        let mut result: Vec<EventEnvelope> = Vec::new();
        let mut i: usize = 0;
        while i < n
            invariant
                n == self.log().len(),
                0 <= i <= n,
                result@.len() == events_for_tx(self.log().take(i as int), tx_id).len(),
                forall|j: int|
                    0 <= j < result@.len() ==> env_matches(
                        #[trigger] result@[j],
                        events_for_tx(self.log().take(i as int), tx_id)[j],
                    ),
            decreases n - i,
        {
            proof {
                assert(self.log().take(i + 1).drop_last() =~= self.log().take(i as int));
                assert(self.log().take(i + 1).last() == self.log()[i as int]);
            }
            if self.events[i].tx_id == tx_id {
                result.push(self.events[i].clone());
            }
            i += 1;
        }
        proof {
            assert(self.log().take(n as int) =~= self.log());
        }
        Ok(result)
    }
}

/// The deduplication mapping is functional: two positions of a well-formed
/// log that carry the same key are the same position, so the key names one
/// envelope.
pub proof fn lemma_dedup_key_functional(j: InMemoryJournal, i1: int, i2: int)
    requires
        j.wf(),
        0 <= i1 < j.log().len(),
        0 <= i2 < j.log().len(),
        j.log()[i1].deduplication_key@ == j.log()[i2].deduplication_key@,
    ensures
        i1 == i2,
        j.log()[i1] == j.log()[i2],
{
}

/// Sequence numbers of a well-formed journal form the contiguous range
/// `1 ..= highest`, with no gaps and no duplicates: the envelope at
/// position `i` carries number `i + 1`, and the highest number equals the
/// length of the log.
pub proof fn lemma_sequence_contiguous(j: InMemoryJournal)
    requires
        j.wf(),
    ensures
        forall|i: int| 0 <= i < j.log().len() ==> (#[trigger] j.log()[i]).sequence_nr == i + 1,
        j.log().len() > 0 ==> j.log().last().sequence_nr == j.log().len(),
        forall|i: int, k: int|
            0 <= i < j.log().len() && 0 <= k < j.log().len() && i != k
                ==> (#[trigger] j.log()[i]).sequence_nr != (#[trigger] j.log()[k]).sequence_nr,
{
}

} // verus!
