//! Dispatch from commands to their handlers: the load phase produces a
//! loaded command that can later validate against the authoritative state
//! and emit its events.

use vstd::prelude::*;

use crate::command::{Chargeback, Deposit, Dispute, Resolve, TransactionTypeCommand, Withdraw};
use crate::envelope::{Directive, EventEnvelope};
use crate::error::{EngineError, PaymentError, TransactionError};
use crate::event::TransactionTypeEvent;
use crate::lookup::{first_base_tx, was_settled, JournalTransactionLookup};
use crate::state::AccountState;

verus! {

/// A command together with the resource its load phase fetched, ready for
/// the fast validate phase.
pub enum LoadedCommand {
    Deposit(Deposit),
    Withdrawal(Withdraw),
    Dispute(Dispute, (TransactionTypeEvent, bool)),
    Resolve(Resolve, (TransactionTypeEvent, bool)),
    Chargeback(Chargeback, (TransactionTypeEvent, bool)),
}

/// What loading `command` against a journal log and a dispute map yields:
/// `None` when the load phase fails (the referenced transaction does not
/// exist), otherwise the loaded command.
pub open spec fn load_outcome(
    command: TransactionTypeCommand,
    log: Seq<EventEnvelope>,
    disputed: Map<u32, i64>,
) -> Option<LoadedCommand> {
    match command {
        TransactionTypeCommand::Deposit(c) => Some(LoadedCommand::Deposit(c)),
        TransactionTypeCommand::Withdrawal(c) => Some(LoadedCommand::Withdrawal(c)),
        TransactionTypeCommand::Dispute(c) => match first_base_tx(log, c.tx_id) {
            Some(t) => Some(LoadedCommand::Dispute(c, (t, was_settled(log, c.tx_id)))),
            None => None,
        },
        TransactionTypeCommand::Resolve(c) => match first_base_tx(log, c.tx_id) {
            Some(t) => Some(LoadedCommand::Resolve(c, (t, disputed.contains_key(c.tx_id)))),
            None => None,
        },
        TransactionTypeCommand::Chargeback(c) => match first_base_tx(log, c.tx_id) {
            Some(t) => Some(LoadedCommand::Chargeback(c, (t, disputed.contains_key(c.tx_id)))),
            None => None,
        },
    }
}

/// The event a loaded command's validate-and-emit step produces against
/// state `s`, or `None` when validation rejects the command.
pub open spec fn directive_event(lc: LoadedCommand, s: AccountState) -> Option<
    TransactionTypeEvent,
> {
    match lc {
        LoadedCommand::Deposit(c) => if c.validate_ok() {
            Some(c.emitted())
        } else {
            None
        },
        LoadedCommand::Withdrawal(c) => if c.validate_ok(s) {
            Some(c.emitted())
        } else {
            None
        },
        LoadedCommand::Dispute(c, res) => if Dispute::validate_ok(res) {
            Some(c.emitted(res.0.spec_amount()))
        } else {
            None
        },
        LoadedCommand::Resolve(c, res) => if Resolve::validate_ok(res) {
            Some(c.emitted(res.0.spec_amount()))
        } else {
            None
        },
        LoadedCommand::Chargeback(c, res) => if Chargeback::validate_ok(res) {
            Some(c.emitted(res.0.spec_amount()))
        } else {
            None
        },
    }
}

/// Which error a loaded command's validate phase surfaces when it rejects
/// the command against state `s`.
pub open spec fn rejection_matches(lc: LoadedCommand, s: AccountState, e: PaymentError) -> bool {
    match lc {
        LoadedCommand::Deposit(_) => e matches PaymentError::Transaction(
            TransactionError::InvalidAmount,
        ),
        LoadedCommand::Withdrawal(c) => if c.amount <= 0 {
            e matches PaymentError::Transaction(TransactionError::InvalidAmount)
        } else if s.is_frozen() {
            e matches PaymentError::Engine(EngineError::ValidationError(_))
        } else {
            e matches PaymentError::Transaction(TransactionError::InsufficientFunds)
        },
        LoadedCommand::Dispute(..) => e matches PaymentError::Transaction(
            TransactionError::InvalidTransactionType,
        ),
        LoadedCommand::Resolve(..) => e matches PaymentError::Transaction(
            TransactionError::InvalidTransactionType,
        ),
        LoadedCommand::Chargeback(..) => e matches PaymentError::Transaction(
            TransactionError::InvalidTransactionType,
        ),
    }
}

/// Dispatches commands to their handlers.
pub struct CommandProcessor;

impl CommandProcessor {
    /// A new processor.
    pub fn new() -> (r: Self) {
        Self
    }

    /// Run the load phase of `command` against `lookup`: fetch whatever
    /// resource its validate phase will need.
    pub fn load(&self, command: TransactionTypeCommand, lookup: &JournalTransactionLookup) -> (r:
        Result<LoadedCommand, PaymentError>)
        requires
            lookup.wf(),
        ensures
            match load_outcome(
                command,
                lookup.spec_journal().log(),
                lookup.spec_dispute_index().disputed(),
            ) {
                Some(lc) => r == Ok::<LoadedCommand, PaymentError>(lc),
                None => r matches Err(PaymentError::Engine(EngineError::LoadingResourcesError(_))),
            },
    {
        match command {
            TransactionTypeCommand::Deposit(cmd) => Ok(LoadedCommand::Deposit(cmd)),
            TransactionTypeCommand::Withdrawal(cmd) => Ok(LoadedCommand::Withdrawal(cmd)),
            TransactionTypeCommand::Dispute(cmd) => {
                let resource = cmd.load(lookup)?;
                Ok(LoadedCommand::Dispute(cmd, resource))
            },
            TransactionTypeCommand::Resolve(cmd) => {
                let resource = cmd.load(lookup)?;
                Ok(LoadedCommand::Resolve(cmd, resource))
            },
            TransactionTypeCommand::Chargeback(cmd) => {
                let resource = cmd.load(lookup)?;
                Ok(LoadedCommand::Chargeback(cmd, resource))
            },
        }
    }
}

impl LoadedCommand {
    /// Validate against the authoritative state and emit the directive.
    /// This phase is pure: no journal or index access.
    pub fn apply(&self, actual_state: &AccountState) -> (r: Result<Directive, PaymentError>)
        ensures
            match directive_event(*self, *actual_state) {
                Some(ev) => r matches Ok(d) && d.events@.len() == 1 && d.events@[0] == ev,
                None => r matches Err(_),
            },
            directive_event(*self, *actual_state) matches None ==> (r matches Err(e)
                && rejection_matches(*self, *actual_state, e)),
    {
        match self {
            LoadedCommand::Deposit(cmd) => {
                cmd.validate(actual_state)?;
                let events = cmd.emit()?;
                Ok(Directive { events })
            },
            LoadedCommand::Withdrawal(cmd) => {
                cmd.validate(actual_state)?;
                let events = cmd.emit()?;
                Ok(Directive { events })
            },
            LoadedCommand::Dispute(cmd, resource) => {
                cmd.validate(actual_state, resource)?;
                let events = cmd.emit(resource)?;
                Ok(Directive { events })
            },
            LoadedCommand::Resolve(cmd, resource) => {
                let entity = cmd.validate(actual_state, resource)?;
                let events = cmd.emit(entity)?;
                Ok(Directive { events })
            },
            LoadedCommand::Chargeback(cmd, resource) => {
                let entity = cmd.validate(actual_state, resource)?;
                let events = cmd.emit(entity)?;
                Ok(Directive { events })
            },
        }
    }
}

} // verus!
