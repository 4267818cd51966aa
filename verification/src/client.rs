//! The per-client serialiser: owns one client's account state, applies
//! events in monotonic sequence order, and absorbs idempotent
//! redeliveries.

use vstd::prelude::*;

use crate::callback::index_after_callbacks;
use crate::command::TransactionTypeCommand;
use crate::engine::{EngineContext, PaymentEngine};
use crate::envelope::{CommandMetadata, EventEnvelope};
use crate::error::{EngineError, PaymentError, TransactionError};
use crate::event::lemma_apply_preserves_wf;
use crate::indexes::InMemoryDisputeIndex;
use crate::journal::{dedup_index_of, has_dedup_key, InMemoryJournal};
use crate::processor::{directive_event, load_outcome, rejection_matches};
use crate::state::AccountState;

verus! {

/// How one command moves a client through the engine: relates the state
/// of the account (`s0`, `last0`), the journal log and dispute map before
/// (`log0`, `idx0`) and after (`s1`, `last1`, `log1`, `idx1`), and the
/// reply `r`.
///
/// The relation only describes runs in which a redelivered deduplication
/// key is not older than the client's last applied event; the caller
/// rules the regression out beforehand.
pub open spec fn actor_step(
    command: TransactionTypeCommand,
    key: Seq<char>,
    now: i64,
    s0: AccountState,
    last0: u64,
    log0: Seq<EventEnvelope>,
    idx0: Map<u32, i64>,
    s1: AccountState,
    last1: u64,
    log1: Seq<EventEnvelope>,
    idx1: Map<u32, i64>,
    r: Result<(), PaymentError>,
) -> bool {
    match load_outcome(command, log0, idx0) {
        None => {
            &&& r matches Err(PaymentError::Engine(EngineError::LoadingResourcesError(_)))
            &&& s1 == s0
            &&& last1 == last0
            &&& log1 == log0
            &&& idx1 == idx0
        },
        Some(lc) => match directive_event(lc, s0) {
            None => {
                &&& r matches Err(e) && rejection_matches(lc, s0, e)
                &&& s1 == s0
                &&& last1 == last0
                &&& log1 == log0
                &&& idx1 == idx0
            },
            Some(ev) => {
                &&& has_dedup_key(log0, key) ==> {
                    let e0 = log0[dedup_index_of(log0, key)];
                    &&& log1 == log0
                    &&& idx1 == index_after_callbacks(idx0, e0.event)
                    &&& e0.event.can_apply(s0) && e0.sequence_nr == last0 ==> {
                        // Idempotent redelivery of the last applied event:
                        // the state is not updated.
                        &&& r == Ok::<(), PaymentError>(())
                        &&& s1 == s0
                        &&& last1 == last0
                    }
                    &&& e0.event.can_apply(s0) && e0.sequence_nr != last0 ==> {
                        &&& r == Ok::<(), PaymentError>(())
                        &&& s1 == e0.event.applied(s0, now)
                        &&& last1 == e0.sequence_nr
                    }
                    &&& !e0.event.can_apply(s0) ==> {
                        &&& r matches Err(PaymentError::Engine(EngineError::StateTransitionFailed))
                        &&& s1 == s0
                        &&& last1 == last0
                    }
                }
                &&& !has_dedup_key(log0, key) && log0.len() < u64::MAX ==> {
                    &&& log1.len() == log0.len() + 1
                    &&& (forall|i: int| 0 <= i < log0.len() ==> log1[i] == log0[i])
                    &&& log1.last().sequence_nr == log0.len() + 1
                    &&& log1.last().event == ev
                    &&& log1.last().timestamp == now
                    &&& log1.last().client_id == command.spec_client_id()
                    &&& log1.last().tx_id == command.spec_tx_id()
                    &&& log1.last().deduplication_key@ == key
                    &&& idx1 == index_after_callbacks(idx0, ev)
                    &&& ev.can_apply(s0) ==> {
                        &&& r == Ok::<(), PaymentError>(())
                        &&& s1 == ev.applied(s0, now)
                        &&& last1 == log0.len() + 1
                    }
                    &&& !ev.can_apply(s0) ==> {
                        &&& r matches Err(PaymentError::Engine(EngineError::StateTransitionFailed))
                        &&& s1 == s0
                        &&& last1 == last0
                    }
                }
                &&& !has_dedup_key(log0, key) && log0.len() >= u64::MAX ==> {
                    &&& r matches Err(PaymentError::Transaction(TransactionError::GeneralError(_)))
                    &&& s1 == s0
                    &&& last1 == last0
                    &&& log1 == log0
                    &&& idx1 == idx0
                }
            },
        },
    }
}

/// One client's actor: the single writer of that client's account state.
pub struct ClientActor {
    /// The client this actor serves.
    pub client_id: u16,
    /// The account state this actor owns.
    pub account_state: AccountState,
    /// Sequence number of the last applied event (global journal
    /// sequence, not per-client). Guarantees monotonic application and
    /// absorbs at-least-once redeliveries.
    pub last_sequence: u64,
}

impl ClientActor {
    /// A fresh actor for `client_id`: active account with empty balances,
    /// no event applied yet.
    pub fn new(client_id: u16, now: i64) -> (r: Self)
        ensures
            r.client_id == client_id,
            r.account_state == AccountState::initial_spec(now),
            r.last_sequence == 0,
    {
        ClientActor { client_id, account_state: AccountState::initial(now), last_sequence: 0 }
    }

    /// Process one command for this client against the shared journal and
    /// dispute index.
    ///
    /// On engine success the event's sequence number is checked against
    /// the last applied one: an equal number is a redelivered duplicate
    /// and the state update is skipped; a greater one is adopted. The
    /// caller must rule out a smaller number (an ordering violation)
    /// beforehand — see the `requires`.
    pub fn process_command(
        &mut self,
        command: TransactionTypeCommand,
        metadata: CommandMetadata,
        journal: &mut InMemoryJournal,
        dispute_index: &mut InMemoryDisputeIndex,
        now: i64,
    ) -> (r: Result<(), PaymentError>)
        requires
            old(journal).wf(),
            old(dispute_index).wf(),
            old(self).account_state.wf(),
            old(self).last_sequence <= old(journal).log().len(),
            has_dedup_key(old(journal).log(), metadata.deduplication_key@) ==> old(journal).log()[
                dedup_index_of(old(journal).log(), metadata.deduplication_key@)
            ].sequence_nr >= old(self).last_sequence,
        ensures
            final(journal).wf(),
            final(dispute_index).wf(),
            final(self).client_id == old(self).client_id,
            final(self).account_state.wf(),
            final(self).last_sequence <= final(journal).log().len(),
            actor_step(
                command,
                metadata.deduplication_key@,
                now,
                old(self).account_state,
                old(self).last_sequence,
                old(journal).log(),
                old(dispute_index).disputed(),
                final(self).account_state,
                final(self).last_sequence,
                final(journal).log(),
                final(dispute_index).disputed(),
                r,
            ),
    {
        let engine = PaymentEngine::new();
        let context = EngineContext { current_state: self.account_state };

        match engine.process_command(command, metadata, &context, journal, dispute_index, now) {
            Ok((envelope, new_state)) => {
                proof {
                    lemma_apply_preserves_wf(
                        envelope.event,
                        old(self).account_state,
                        now,
                    );
                }
                if envelope.sequence_nr == self.last_sequence {
                    // Redelivered duplicate: already applied, skip the
                    // state update.
                    return Ok(());
                }
                proof {
                    assert(envelope.sequence_nr > self.last_sequence);
                }
                self.account_state = new_state;
                self.last_sequence = envelope.sequence_nr;
                Ok(())
            },
            Err(e) => Err(e),
        }
    }

    /// The state this actor currently holds, for read-side queries.
    pub fn get_state(&self) -> (r: AccountState)
        ensures
            r == self.account_state,
    {
        self.account_state
    }
}

/// An actor step never shrinks or rewrites the journal: the log keeps its
/// prefix and grows by at most one event.
pub proof fn lemma_actor_step_log_grows(
    command: TransactionTypeCommand,
    key: Seq<char>,
    now: i64,
    s0: AccountState,
    last0: u64,
    log0: Seq<EventEnvelope>,
    idx0: Map<u32, i64>,
    s1: AccountState,
    last1: u64,
    log1: Seq<EventEnvelope>,
    idx1: Map<u32, i64>,
    r: Result<(), PaymentError>,
)
    requires
        actor_step(command, key, now, s0, last0, log0, idx0, s1, last1, log1, idx1, r),
    ensures
        log0.len() <= log1.len() <= log0.len() + 1,
        forall|i: int| 0 <= i < log0.len() ==> log1[i] == log0[i],
{
}

/// The per-client cursor is monotonic: when the caller has ruled out a
/// regressed redelivery, a step never lowers the last applied sequence
/// number, and it never exceeds the journal.
pub proof fn lemma_actor_step_monotonic(
    command: TransactionTypeCommand,
    key: Seq<char>,
    now: i64,
    s0: AccountState,
    last0: u64,
    log0: Seq<EventEnvelope>,
    idx0: Map<u32, i64>,
    s1: AccountState,
    last1: u64,
    log1: Seq<EventEnvelope>,
    idx1: Map<u32, i64>,
    r: Result<(), PaymentError>,
)
    requires
        actor_step(command, key, now, s0, last0, log0, idx0, s1, last1, log1, idx1, r),
        last0 <= log0.len(),
        forall|i: int| 0 <= i < log0.len() ==> (#[trigger] log0[i]).sequence_nr == i + 1,
        has_dedup_key(log0, key) ==> log0[dedup_index_of(log0, key)].sequence_nr >= last0,
    ensures
        last0 <= last1 <= log1.len(),
{
    if has_dedup_key(log0, key) {
        let e0 = log0[dedup_index_of(log0, key)];
        assert(0 <= dedup_index_of(log0, key) < log0.len());
    }
}

/// Redelivering the command behind the client's last applied event leaves
/// the account state, the cursor, and the journal unchanged, whatever the
/// command's phases decide; only the idempotent dispute-index callbacks
/// may run again.
pub proof fn lemma_redelivery_idempotent(
    command: TransactionTypeCommand,
    key: Seq<char>,
    now: i64,
    s0: AccountState,
    last0: u64,
    log0: Seq<EventEnvelope>,
    idx0: Map<u32, i64>,
    s1: AccountState,
    last1: u64,
    log1: Seq<EventEnvelope>,
    idx1: Map<u32, i64>,
    r: Result<(), PaymentError>,
)
    requires
        actor_step(command, key, now, s0, last0, log0, idx0, s1, last1, log1, idx1, r),
        has_dedup_key(log0, key),
        log0[dedup_index_of(log0, key)].sequence_nr == last0,
    ensures
        s1 == s0,
        last1 == last0,
        log1 == log0,
{
}

} // verus!
