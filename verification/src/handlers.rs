//! Per-command business rules, split into the load / validate / emit
//! phases the engine orchestrates.
//!
//! `load` may read the journal and the dispute index; `validate` and
//! `emit` are pure: they see the authoritative state and the loaded
//! resource only.

use vstd::prelude::*;

use crate::command::{Chargeback, Deposit, Dispute, Resolve, Withdraw};
use crate::error::{EngineError, PaymentError, TransactionError};
use crate::event::{
    Chargebacked, Deposited, Disputed, Resolved, TransactionTypeEvent, Withdrawn,
};
use crate::lookup::{first_base_tx, is_base_event, was_settled, JournalTransactionLookup};
use crate::state::AccountState;

verus! {

impl Deposit {
    /// Whether validation accepts the deposit: the amount must be
    /// positive. Deposits are permitted on frozen accounts, so the state
    /// plays no part.
    pub open spec fn validate_ok(self) -> bool {
        self.amount > 0
    }

    /// The event a valid deposit emits.
    pub open spec fn emitted(self) -> TransactionTypeEvent {
        TransactionTypeEvent::Deposited(
            Deposited { client_id: self.client_id, tx_id: self.tx_id, amount: self.amount },
        )
    }

    /// Validate the deposit: rejects a non-positive amount.
    pub fn validate(&self, _state: &AccountState) -> (r: Result<(), PaymentError>)
        ensures
            self.validate_ok() ==> r == Ok::<(), PaymentError>(()),
            !self.validate_ok() ==> r matches Err(PaymentError::Transaction(
                TransactionError::InvalidAmount,
            )),
    {
        if self.amount <= 0 {
            return Err(PaymentError::Transaction(TransactionError::InvalidAmount));
        }
        Ok(())
    }

    /// Emit the single `Deposited` event.
    pub fn emit(&self) -> (r: Result<Vec<TransactionTypeEvent>, PaymentError>)
        ensures
            r matches Ok(v) && v@.len() == 1 && v@[0] == self.emitted(),
    {
        let mut events: Vec<TransactionTypeEvent> = Vec::new();
        events.push(
            TransactionTypeEvent::Deposited(
                Deposited { client_id: self.client_id, tx_id: self.tx_id, amount: self.amount },
            ),
        );
        Ok(events)
    }
}

impl Withdraw {
    /// Whether validation accepts the withdrawal: the amount must be
    /// positive, the account not frozen, and the available funds must
    /// cover the amount.
    pub open spec fn validate_ok(self, s: AccountState) -> bool {
        &&& self.amount > 0
        &&& !s.is_frozen()
        &&& s.available() >= self.amount
    }

    /// The event a valid withdrawal emits.
    pub open spec fn emitted(self) -> TransactionTypeEvent {
        TransactionTypeEvent::Withdrawn(
            Withdrawn { client_id: self.client_id, tx_id: self.tx_id, amount: self.amount },
        )
    }

    /// Validate the withdrawal against the authoritative state: rejects a
    /// non-positive amount, a frozen account, and insufficient funds, in
    /// that order.
    pub fn validate(&self, state: &AccountState) -> (r: Result<(), PaymentError>)
        ensures
            self.validate_ok(*state) ==> r == Ok::<(), PaymentError>(()),
            self.amount <= 0 ==> r matches Err(PaymentError::Transaction(
                TransactionError::InvalidAmount,
            )),
            self.amount > 0 && state.is_frozen() ==> r matches Err(PaymentError::Engine(
                EngineError::ValidationError(_),
            )),
            self.amount > 0 && !state.is_frozen() && state.available() < self.amount ==> r
                matches Err(PaymentError::Transaction(TransactionError::InsufficientFunds)),
    {
        if self.amount <= 0 {
            return Err(PaymentError::Transaction(TransactionError::InvalidAmount));
        }
        let available = match state {
            AccountState::Active(a) => a.available,
            AccountState::Frozen(_) => {
                return Err(
                    PaymentError::Engine(
                        EngineError::ValidationError(
                            String::from_str("Cannot withdraw from frozen account"),
                        ),
                    ),
                );
            },
        };
        if available < self.amount {
            return Err(PaymentError::Transaction(TransactionError::InsufficientFunds));
        }
        Ok(())
    }

    /// Emit the single `Withdrawn` event.
    pub fn emit(&self) -> (r: Result<Vec<TransactionTypeEvent>, PaymentError>)
        ensures
            r matches Ok(v) && v@.len() == 1 && v@[0] == self.emitted(),
    {
        let mut events: Vec<TransactionTypeEvent> = Vec::new();
        events.push(
            TransactionTypeEvent::Withdrawn(
                Withdrawn { client_id: self.client_id, tx_id: self.tx_id, amount: self.amount },
            ),
        );
        Ok(events)
    }
}

impl Dispute {
    /// Whether validation accepts the dispute: the referenced transaction
    /// must be a deposit or a withdrawal that has not already been
    /// settled by a resolve or a chargeback. A frozen account does not
    /// block a dispute (consumer protection).
    pub open spec fn validate_ok(resource: (TransactionTypeEvent, bool)) -> bool {
        &&& is_base_event(resource.0)
        &&& !resource.1
    }

    /// The event a valid dispute emits: it recovers the disputed amount
    /// from the original transaction.
    pub open spec fn emitted(self, amount: i64) -> TransactionTypeEvent {
        TransactionTypeEvent::Disputed(
            Disputed { client_id: self.client_id, tx_id: self.tx_id, amount },
        )
    }

    /// Load the original transaction and whether it was already settled;
    /// fails when the transaction does not exist.
    pub fn load(&self, lookup: &JournalTransactionLookup) -> (r: Result<
        (TransactionTypeEvent, bool),
        PaymentError,
    >)
        requires
            lookup.wf(),
        ensures
            match first_base_tx(lookup.spec_journal().log(), self.tx_id) {
                Some(t) => r == Ok::<(TransactionTypeEvent, bool), PaymentError>(
                    (t, was_settled(lookup.spec_journal().log(), self.tx_id)),
                ),
                None => r matches Err(PaymentError::Engine(EngineError::LoadingResourcesError(_))),
            },
    {
        let original_tx = match lookup.find_transaction(self.tx_id)? {
            Some(t) => t,
            None => {
                return Err(
                    PaymentError::Engine(
                        EngineError::LoadingResourcesError(
                            String::from_str("Transaction not found"),
                        ),
                    ),
                );
            },
        };
        let settled = lookup.was_settled(self.tx_id)?;
        Ok((original_tx, settled))
    }

    /// Validate the dispute: rejects a non-base transaction and one that
    /// was already settled.
    pub fn validate(&self, _state: &AccountState, resource: &(TransactionTypeEvent, bool)) -> (r:
        Result<(), PaymentError>)
        ensures
            Self::validate_ok(*resource) ==> r == Ok::<(), PaymentError>(()),
            !Self::validate_ok(*resource) ==> r matches Err(PaymentError::Transaction(
                TransactionError::InvalidTransactionType,
            )),
    {
        match &resource.0 {
            TransactionTypeEvent::Deposited(_) | TransactionTypeEvent::Withdrawn(_) => {},
            _ => {
                return Err(PaymentError::Transaction(TransactionError::InvalidTransactionType));
            },
        }
        if resource.1 {
            // Already resolved or charged back: the dispute is rejected.
            return Err(PaymentError::Transaction(TransactionError::InvalidTransactionType));
        }
        Ok(())
    }

    /// Emit the single `Disputed` event carrying the original amount.
    pub fn emit(&self, resource: &(TransactionTypeEvent, bool)) -> (r: Result<
        Vec<TransactionTypeEvent>,
        PaymentError,
    >)
        ensures
            Self::validate_ok(*resource) ==> (r matches Ok(v) && v@.len() == 1 && v@[0]
                == self.emitted(resource.0.spec_amount())),
            !Self::validate_ok(*resource) ==> r matches Err(PaymentError::Transaction(
                TransactionError::InvalidTransactionType,
            )),
    {
        let amount = match &resource.0 {
            TransactionTypeEvent::Deposited(d) => d.amount,
            TransactionTypeEvent::Withdrawn(w) => w.amount,
            _ => {
                return Err(PaymentError::Transaction(TransactionError::InvalidTransactionType));
            },
        };
        if resource.1 {
            return Err(PaymentError::Transaction(TransactionError::InvalidTransactionType));
        }
        let mut events: Vec<TransactionTypeEvent> = Vec::new();
        events.push(
            TransactionTypeEvent::Disputed(
                Disputed { client_id: self.client_id, tx_id: self.tx_id, amount },
            ),
        );
        Ok(events)
    }
}

impl Resolve {
    /// Whether validation accepts the resolve: the referenced transaction
    /// must be a base transaction that is currently under dispute.
    pub open spec fn validate_ok(resource: (TransactionTypeEvent, bool)) -> bool {
        &&& is_base_event(resource.0)
        &&& resource.1
    }

    /// The event a valid resolve emits.
    pub open spec fn emitted(self, amount: i64) -> TransactionTypeEvent {
        TransactionTypeEvent::Resolved(
            Resolved { client_id: self.client_id, tx_id: self.tx_id, amount },
        )
    }

    /// Load the original transaction and the current dispute status; fails
    /// when the transaction does not exist.
    pub fn load(&self, lookup: &JournalTransactionLookup) -> (r: Result<
        (TransactionTypeEvent, bool),
        PaymentError,
    >)
        requires
            lookup.wf(),
        ensures
            match first_base_tx(lookup.spec_journal().log(), self.tx_id) {
                Some(t) => r == Ok::<(TransactionTypeEvent, bool), PaymentError>(
                    (t, lookup.spec_dispute_index().disputed().contains_key(self.tx_id)),
                ),
                None => r matches Err(PaymentError::Engine(EngineError::LoadingResourcesError(_))),
            },
    {
        let original_tx = match lookup.find_transaction(self.tx_id)? {
            Some(t) => t,
            None => {
                return Err(
                    PaymentError::Engine(
                        EngineError::LoadingResourcesError(
                            String::from_str("Transaction not found"),
                        ),
                    ),
                );
            },
        };
        let is_disputed = lookup.is_disputed(self.tx_id)?;
        Ok((original_tx, is_disputed))
    }

    /// Validate the resolve: extracts the amount from the original
    /// transaction; rejects a non-base transaction and one that is not
    /// under dispute.
    pub fn validate(&self, _state: &AccountState, resource: &(TransactionTypeEvent, bool)) -> (r:
        Result<i64, PaymentError>)
        ensures
            Self::validate_ok(*resource) ==> r == Ok::<i64, PaymentError>(resource.0.spec_amount()),
            !Self::validate_ok(*resource) ==> r matches Err(PaymentError::Transaction(
                TransactionError::InvalidTransactionType,
            )),
    {
        let amount = match &resource.0 {
            TransactionTypeEvent::Deposited(d) => d.amount,
            TransactionTypeEvent::Withdrawn(w) => w.amount,
            _ => {
                return Err(PaymentError::Transaction(TransactionError::InvalidTransactionType));
            },
        };
        if !resource.1 {
            return Err(PaymentError::Transaction(TransactionError::InvalidTransactionType));
        }
        Ok(amount)
    }

    /// Emit the single `Resolved` event carrying the validated amount.
    pub fn emit(&self, entity: i64) -> (r: Result<Vec<TransactionTypeEvent>, PaymentError>)
        ensures
            r matches Ok(v) && v@.len() == 1 && v@[0] == self.emitted(entity),
    {
        let mut events: Vec<TransactionTypeEvent> = Vec::new();
        events.push(
            TransactionTypeEvent::Resolved(
                Resolved { client_id: self.client_id, tx_id: self.tx_id, amount: entity },
            ),
        );
        Ok(events)
    }
}

impl Chargeback {
    /// Whether validation accepts the chargeback: the referenced
    /// transaction must be a base transaction that is currently under
    /// dispute.
    pub open spec fn validate_ok(resource: (TransactionTypeEvent, bool)) -> bool {
        &&& is_base_event(resource.0)
        &&& resource.1
    }

    /// The event a valid chargeback emits.
    pub open spec fn emitted(self, amount: i64) -> TransactionTypeEvent {
        TransactionTypeEvent::Chargebacked(
            Chargebacked { client_id: self.client_id, tx_id: self.tx_id, amount },
        )
    }

    /// Load the original transaction and the current dispute status; fails
    /// when the transaction does not exist.
    pub fn load(&self, lookup: &JournalTransactionLookup) -> (r: Result<
        (TransactionTypeEvent, bool),
        PaymentError,
    >)
        requires
            lookup.wf(),
        ensures
            match first_base_tx(lookup.spec_journal().log(), self.tx_id) {
                Some(t) => r == Ok::<(TransactionTypeEvent, bool), PaymentError>(
                    (t, lookup.spec_dispute_index().disputed().contains_key(self.tx_id)),
                ),
                None => r matches Err(PaymentError::Engine(EngineError::LoadingResourcesError(_))),
            },
    {
        let original_tx = match lookup.find_transaction(self.tx_id)? {
            Some(t) => t,
            None => {
                return Err(
                    PaymentError::Engine(
                        EngineError::LoadingResourcesError(
                            String::from_str("Transaction not found"),
                        ),
                    ),
                );
            },
        };
        let is_disputed = lookup.is_disputed(self.tx_id)?;
        Ok((original_tx, is_disputed))
    }

    /// Validate the chargeback: extracts the amount from the original
    /// transaction; rejects a non-base transaction and one that is not
    /// under dispute.
    pub fn validate(&self, _state: &AccountState, resource: &(TransactionTypeEvent, bool)) -> (r:
        Result<i64, PaymentError>)
        ensures
            Self::validate_ok(*resource) ==> r == Ok::<i64, PaymentError>(resource.0.spec_amount()),
            !Self::validate_ok(*resource) ==> r matches Err(PaymentError::Transaction(
                TransactionError::InvalidTransactionType,
            )),
    {
        let amount = match &resource.0 {
            TransactionTypeEvent::Deposited(d) => d.amount,
            TransactionTypeEvent::Withdrawn(w) => w.amount,
            _ => {
                return Err(PaymentError::Transaction(TransactionError::InvalidTransactionType));
            },
        };
        if !resource.1 {
            return Err(PaymentError::Transaction(TransactionError::InvalidTransactionType));
        }
        Ok(amount)
    }

    /// Emit the single `Chargebacked` event carrying the validated amount.
    pub fn emit(&self, entity: i64) -> (r: Result<Vec<TransactionTypeEvent>, PaymentError>)
        ensures
            r matches Ok(v) && v@.len() == 1 && v@[0] == self.emitted(entity),
    {
        let mut events: Vec<TransactionTypeEvent> = Vec::new();
        events.push(
            TransactionTypeEvent::Chargebacked(
                Chargebacked { client_id: self.client_id, tx_id: self.tx_id, amount: entity },
            ),
        );
        Ok(events)
    }
}

/// Withdrawing exactly the available funds passes validation, and the
/// emitted `Withdrawn` event applies and leaves `available` at zero.
pub proof fn lemma_withdraw_exact_balance(w: Withdraw, s: AccountState, now: i64)
    requires
        s.wf(),
        !s.is_frozen(),
        w.amount > 0,
        s.available() == w.amount,
    ensures
        w.validate_ok(s),
        w.emitted().can_apply(s),
        w.emitted().applied(s, now).available() == 0,
        w.emitted().applied(s, now).total() == s.held(),
{
}

/// A resolve or chargeback of a transaction that is not currently under
/// dispute — one never disputed, or already settled by an earlier resolve
/// or chargeback — fails validation.
pub proof fn lemma_settlement_requires_open_dispute(resource: (TransactionTypeEvent, bool))
    requires
        !resource.1,
    ensures
        !Resolve::validate_ok(resource),
        !Chargeback::validate_ok(resource),
{
}

/// A dispute of a transaction that was already settled — resolved or
/// charged back — fails validation.
pub proof fn lemma_dispute_of_settled_rejected(resource: (TransactionTypeEvent, bool))
    requires
        resource.1,
    ensures
        !Dispute::validate_ok(resource),
{
}

} // verus!
