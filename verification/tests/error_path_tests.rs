//! Which error each rejected command surfaces.

use payment::command::{Chargeback, Deposit, Dispute, TransactionTypeCommand, Withdraw};
use payment::engine::{EngineContext, PaymentEngine};
use payment::envelope::{CommandMetadata, DeduplicationKey};
use payment::error::{EngineError, PaymentError, TransactionError};
use payment::indexes::InMemoryDisputeIndex;
use payment::journal::InMemoryJournal;
use payment::registry::ClientRegistry;
use payment::state::{AccountState, ActiveAccountState};

/// A monetary amount in ten-thousandths, from a plain decimal value.
fn raw(x: f64) -> i64 {
    (x * 10000.0).round() as i64
}

struct Setup {
    journal: InMemoryJournal,
    dispute_index: InMemoryDisputeIndex,
    engine: PaymentEngine,
    state: AccountState,
    counter: u64,
}

impl Setup {
    fn new() -> Self {
        Setup {
            journal: InMemoryJournal::new(),
            dispute_index: InMemoryDisputeIndex::new(),
            engine: PaymentEngine::new(),
            state: AccountState::Active(ActiveAccountState {
                available: 0,
                held: 0,
                total: 0,
                last_activity: 0,
            }),
            counter: 0,
        }
    }

    fn process(&mut self, command: TransactionTypeCommand) -> Result<(), PaymentError> {
        self.counter += 1;
        let metadata = CommandMetadata {
            deduplication_key: DeduplicationKey::new(format!("err:{}", self.counter)),
        };
        let context = EngineContext { current_state: self.state };
        let (_e, new_state) = self.engine.process_command(
            command,
            metadata,
            &context,
            &mut self.journal,
            &mut self.dispute_index,
            0,
        )?;
        self.state = new_state;
        Ok(())
    }
}

#[test]
fn test_invalid_amount_error() {
    let mut s = Setup::new();
    let result =
        s.process(TransactionTypeCommand::Deposit(Deposit { client_id: 1, tx_id: 1, amount: 0 }));
    assert!(matches!(
        result,
        Err(PaymentError::Transaction(TransactionError::InvalidAmount))
    ));
}

#[test]
fn test_insufficient_funds_error() {
    let mut s = Setup::new();
    s.process(TransactionTypeCommand::Deposit(Deposit {
        client_id: 1,
        tx_id: 1,
        amount: raw(10.0),
    }))
    .unwrap();
    let result = s.process(TransactionTypeCommand::Withdrawal(Withdraw {
        client_id: 1,
        tx_id: 2,
        amount: raw(20.0),
    }));
    assert!(matches!(
        result,
        Err(PaymentError::Transaction(TransactionError::InsufficientFunds))
    ));
}

#[test]
fn test_frozen_withdrawal_validation_error() {
    let mut s = Setup::new();
    s.process(TransactionTypeCommand::Deposit(Deposit {
        client_id: 1,
        tx_id: 1,
        amount: raw(10.0),
    }))
    .unwrap();
    s.process(TransactionTypeCommand::Dispute(Dispute { client_id: 1, tx_id: 1 })).unwrap();
    s.process(TransactionTypeCommand::Chargeback(Chargeback { client_id: 1, tx_id: 1 }))
        .unwrap();
    let result = s.process(TransactionTypeCommand::Withdrawal(Withdraw {
        client_id: 1,
        tx_id: 2,
        amount: raw(1.0),
    }));
    assert!(matches!(
        result,
        Err(PaymentError::Engine(EngineError::ValidationError(_)))
    ));
}

#[test]
fn test_loading_resources_error_for_missing_transaction() {
    let mut s = Setup::new();
    let result = s.process(TransactionTypeCommand::Dispute(Dispute { client_id: 1, tx_id: 9 }));
    assert!(matches!(
        result,
        Err(PaymentError::Engine(EngineError::LoadingResourcesError(_)))
    ));
}

#[test]
fn test_invalid_transaction_type_error_for_unopened_dispute() {
    let mut s = Setup::new();
    s.process(TransactionTypeCommand::Deposit(Deposit {
        client_id: 1,
        tx_id: 1,
        amount: raw(10.0),
    }))
    .unwrap();
    let result = s.process(TransactionTypeCommand::Resolve(payment::command::Resolve {
        client_id: 1,
        tx_id: 1,
    }));
    assert!(matches!(
        result,
        Err(PaymentError::Transaction(TransactionError::InvalidTransactionType))
    ));
}

#[test]
fn test_invalid_transaction_type_error_for_settled_dispute() {
    let mut s = Setup::new();
    s.process(TransactionTypeCommand::Deposit(Deposit {
        client_id: 1,
        tx_id: 1,
        amount: raw(10.0),
    }))
    .unwrap();
    s.process(TransactionTypeCommand::Dispute(Dispute { client_id: 1, tx_id: 1 })).unwrap();
    s.process(TransactionTypeCommand::Resolve(payment::command::Resolve {
        client_id: 1,
        tx_id: 1,
    }))
    .unwrap();
    let result = s.process(TransactionTypeCommand::Dispute(Dispute { client_id: 1, tx_id: 1 }));
    assert!(matches!(
        result,
        Err(PaymentError::Transaction(TransactionError::InvalidTransactionType))
    ));
}

#[test]
fn test_state_transition_failed_when_held_does_not_cover() {
    // A second account disputes and charges back the first account's
    // transaction: the command phase admits it (the transaction exists and
    // is disputed), but the second account holds nothing, so the event
    // handler rejects the chargeback.
    let mut s = Setup::new();
    s.process(TransactionTypeCommand::Deposit(Deposit {
        client_id: 1,
        tx_id: 1,
        amount: raw(100.0),
    }))
    .unwrap();

    // Mark the transaction disputed on behalf of account one.
    let metadata = CommandMetadata {
        deduplication_key: DeduplicationKey::new(String::from("other:dispute")),
    };
    let other = EngineContext {
        current_state: AccountState::Active(ActiveAccountState {
            available: raw(100.0),
            held: 0,
            total: raw(100.0),
            last_activity: 0,
        }),
    };
    s.engine
        .process_command(
            TransactionTypeCommand::Dispute(Dispute { client_id: 1, tx_id: 1 }),
            metadata,
            &other,
            &mut s.journal,
            &mut s.dispute_index,
            0,
        )
        .unwrap();

    // The tracked account holds nothing; the chargeback passes validation
    // but the event cannot be applied.
    s.state = AccountState::Active(ActiveAccountState {
        available: 0,
        held: 0,
        total: 0,
        last_activity: 0,
    });
    let result =
        s.process(TransactionTypeCommand::Chargeback(Chargeback { client_id: 1, tx_id: 1 }));
    assert!(matches!(
        result,
        Err(PaymentError::Engine(EngineError::StateTransitionFailed))
    ));
}

#[test]
fn test_registry_rejects_regressed_redelivery() {
    // Redelivering the key of an event older than the client's last
    // applied one is an ordering violation and is rejected.
    let mut registry = ClientRegistry::new();

    registry
        .process_command(
            1,
            TransactionTypeCommand::Deposit(Deposit { client_id: 1, tx_id: 1, amount: raw(1.0) }),
            CommandMetadata { deduplication_key: DeduplicationKey::new(String::from("k1")) },
            0,
        )
        .unwrap();
    registry
        .process_command(
            1,
            TransactionTypeCommand::Deposit(Deposit { client_id: 1, tx_id: 2, amount: raw(1.0) }),
            CommandMetadata { deduplication_key: DeduplicationKey::new(String::from("k2")) },
            0,
        )
        .unwrap();

    let result = registry.process_command(
        1,
        TransactionTypeCommand::Deposit(Deposit { client_id: 1, tx_id: 1, amount: raw(1.0) }),
        CommandMetadata { deduplication_key: DeduplicationKey::new(String::from("k1")) },
        0,
    );
    assert!(matches!(
        result,
        Err(PaymentError::Engine(EngineError::ValidationError(_)))
    ));

    // An immediate redelivery of the newest key is absorbed instead.
    registry
        .process_command(
            1,
            TransactionTypeCommand::Deposit(Deposit { client_id: 1, tx_id: 2, amount: raw(1.0) }),
            CommandMetadata { deduplication_key: DeduplicationKey::new(String::from("k2")) },
            0,
        )
        .unwrap();

    match registry.get_state(1).unwrap().unwrap() {
        AccountState::Active(a) => assert_eq!(a.total, raw(2.0)),
        _ => panic!("Expected Active state"),
    }
}
