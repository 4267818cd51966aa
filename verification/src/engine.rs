//! The payment engine: orchestrates one command through the load,
//! validate, persist, callback, and apply phases.

use vstd::prelude::*;

use crate::callback::{index_after_callbacks, DisputeIndexCallback};
use crate::command::TransactionTypeCommand;
use crate::envelope::{env_matches, CommandMetadata, EventEnvelope, EventMetadata};
use crate::error::{EngineError, PaymentError, TransactionError};
use crate::event::TransactionTypeEvent;
use crate::indexes::InMemoryDisputeIndex;
use crate::journal::{dedup_index_of, has_dedup_key, InMemoryJournal};
use crate::lookup::JournalTransactionLookup;
use crate::processor::{
    directive_event, load_outcome, rejection_matches, CommandProcessor, LoadedCommand,
};
use crate::state::AccountState;

verus! {

/// Context for one engine invocation: the authoritative state of the
/// account being processed. The journal and dispute index are shared
/// across clients and are passed alongside.
pub struct EngineContext {
    /// Current state of the account.
    pub current_state: AccountState,
}

/// The event a command will emit against log `log`, dispute map
/// `disputed`, and state `s` — or `None` when its load or validate phase
/// rejects it.
pub open spec fn engine_emitted(
    command: TransactionTypeCommand,
    log: Seq<EventEnvelope>,
    disputed: Map<u32, i64>,
    s: AccountState,
) -> Option<TransactionTypeEvent> {
    match load_outcome(command, log, disputed) {
        Some(lc) => directive_event(lc, s),
        None => None,
    }
}

/// A dispute of an already-settled transaction — one a resolve or
/// chargeback was ever persisted for — is rejected by the engine,
/// whatever the account state: it emits no event.
pub proof fn lemma_dispute_of_settled_emits_nothing(
    c: crate::command::Dispute,
    log: Seq<EventEnvelope>,
    disputed: Map<u32, i64>,
    s: AccountState,
)
    requires
        crate::lookup::was_settled(log, c.tx_id),
    ensures
        engine_emitted(TransactionTypeCommand::Dispute(c), log, disputed, s) is None,
{
}

/// The stateless payment engine.
pub struct PaymentEngine {
    processor: CommandProcessor,
    dispute_callback: DisputeIndexCallback,
}

impl PaymentEngine {
    /// An engine with the command processor and the built-in dispute
    /// index callback.
    pub fn new() -> (r: Self) {
        Self { processor: CommandProcessor::new(), dispute_callback: DisputeIndexCallback::new() }
    }

    /// Invoke the post-persistence callbacks for `envelope`: the built-in
    /// dispute index callback keeps the index consistent with the log.
    fn invoke_callbacks(&self, envelope: &EventEnvelope, dispute_index: &mut InMemoryDisputeIndex)
        -> (r: Result<(), PaymentError>)
        requires
            old(dispute_index).wf(),
        ensures
            final(dispute_index).wf(),
            final(dispute_index).disputed() == index_after_callbacks(
                old(dispute_index).disputed(),
                envelope.event,
            ),
            r == Ok::<(), PaymentError>(()),
    {
        match &envelope.event {
            TransactionTypeEvent::Deposited(_) => {},
            TransactionTypeEvent::Withdrawn(_) => {},
            TransactionTypeEvent::Disputed(event) => {
                self.dispute_callback.on_disputed(event, dispute_index);
            },
            TransactionTypeEvent::Resolved(event) => {
                self.dispute_callback.on_resolved(event, dispute_index);
            },
            TransactionTypeEvent::Chargebacked(event) => {
                self.dispute_callback.on_chargebacked(event, dispute_index);
            },
        }
        Ok(())
    }

    /// Process one command:
    ///
    /// 1. load resources against the (possibly stale) snapshot;
    /// 2. validate against the authoritative state and emit the event;
    /// 3. append the event to the journal (idempotent via the
    ///    deduplication key: a duplicate returns the existing envelope and
    ///    leaves the log unchanged);
    /// 4. run the post-persistence callbacks on the persisted envelope;
    /// 5. apply the persisted envelope to the state.
    ///
    /// Returns the envelope and the new state; the caller owns the state
    /// and decides whether to adopt it. On any failure the journal gains
    /// no event beyond what step 3 already persisted, and the state is
    /// untouched.
    pub fn process_command(
        &self,
        command: TransactionTypeCommand,
        metadata: CommandMetadata,
        context: &EngineContext,
        journal: &mut InMemoryJournal,
        dispute_index: &mut InMemoryDisputeIndex,
        now: i64,
    ) -> (r: Result<(EventEnvelope, AccountState), PaymentError>)
        requires
            old(journal).wf(),
            old(dispute_index).wf(),
        ensures
            final(journal).wf(),
            final(dispute_index).wf(),
            ({
                let key = metadata.deduplication_key@;
                let log0 = old(journal).log();
                let idx0 = old(dispute_index).disputed();
                let s = context.current_state;
                match load_outcome(command, log0, idx0) {
                    None => {
                        &&& r matches Err(PaymentError::Engine(
                            EngineError::LoadingResourcesError(_),
                        ))
                        &&& final(journal).log() == log0
                        &&& final(dispute_index).disputed() == idx0
                    },
                    Some(lc) => match directive_event(lc, s) {
                        None => {
                            &&& r matches Err(e) && rejection_matches(lc, s, e)
                            &&& final(journal).log() == log0
                            &&& final(dispute_index).disputed() == idx0
                        },
                        Some(ev) => {
                            &&& has_dedup_key(log0, key) ==> {
                                let e0 = log0[dedup_index_of(log0, key)];
                                &&& final(journal).log() == log0
                                &&& final(dispute_index).disputed() == index_after_callbacks(
                                    idx0,
                                    e0.event,
                                )
                                &&& e0.event.can_apply(s) ==> (r matches Ok(p) && env_matches(
                                    p.0,
                                    e0,
                                ) && p.1 == e0.event.applied(s, now))
                                &&& !e0.event.can_apply(s) ==> (r matches Err(
                                    PaymentError::Engine(EngineError::StateTransitionFailed),
                                ))
                            }
                            &&& !has_dedup_key(log0, key) && log0.len() < u64::MAX ==> {
                                &&& final(journal).log().len() == log0.len() + 1
                                &&& forall|i: int|
                                    0 <= i < log0.len() ==> final(journal).log()[i] == log0[i]
                                &&& final(journal).log().last().sequence_nr == log0.len() + 1
                                &&& final(journal).log().last().event == ev
                                &&& final(journal).log().last().timestamp == now
                                &&& final(journal).log().last().client_id
                                    == command.spec_client_id()
                                &&& final(journal).log().last().tx_id == command.spec_tx_id()
                                &&& final(journal).log().last().deduplication_key@ == key
                                &&& final(dispute_index).disputed() == index_after_callbacks(
                                    idx0,
                                    ev,
                                )
                                &&& ev.can_apply(s) ==> (r matches Ok(p) && env_matches(
                                    p.0,
                                    final(journal).log().last(),
                                ) && p.1 == ev.applied(s, now))
                                &&& !ev.can_apply(s) ==> (r matches Err(PaymentError::Engine(
                                    EngineError::StateTransitionFailed,
                                )))
                            }
                            &&& !has_dedup_key(log0, key) && log0.len() >= u64::MAX ==> {
                                &&& final(journal).log() == log0
                                &&& final(dispute_index).disputed() == idx0
                                &&& r matches Err(PaymentError::Transaction(
                                    TransactionError::GeneralError(_),
                                ))
                            }
                        },
                    },
                }
            }),
    {
        let lookup = JournalTransactionLookup::new(journal, dispute_index);
        let loaded = self.processor.load(command, &lookup)?;

        let directive = loaded.apply(&context.current_state)?;

        if directive.events.len() == 0 {
            return Err(PaymentError::Engine(EngineError::NoEvents));
        }
        let event = directive.events[0];

        let event_metadata = EventMetadata {
            client_id: command.client_id(),
            tx_id: command.tx_id(),
            deduplication_key: metadata.deduplication_key,
            timestamp: now,
        };

        let envelope = journal.append(event, event_metadata)?;

        self.invoke_callbacks(&envelope, dispute_index)?;

        let new_state = match envelope.apply(&context.current_state, now) {
            Some(s) => s,
            None => {
                return Err(PaymentError::Engine(EngineError::StateTransitionFailed));
            },
        };

        Ok((envelope, new_state))
    }
}

} // verus!
