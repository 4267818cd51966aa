//! The client registry: per-client actors over the shared journal.

use payment::command::{Deposit, Dispute, TransactionTypeCommand};
use payment::envelope::{CommandMetadata, DeduplicationKey};
use payment::registry::ClientRegistry;
use payment::state::AccountState;

/// A monetary amount in ten-thousandths, from a plain decimal value.
fn raw(x: f64) -> i64 {
    (x * 10000.0).round() as i64
}

fn metadata(key: &str) -> CommandMetadata {
    CommandMetadata { deduplication_key: DeduplicationKey::new(String::from(key)) }
}

#[test]
fn test_multiple_clients_independent_balances() {
    let mut registry = ClientRegistry::with_namespace(String::from("test-1"));

    let deposit1 = Deposit { client_id: 1, tx_id: 1, amount: raw(100.0) };
    registry
        .process_command(1, TransactionTypeCommand::Deposit(deposit1), metadata("test:1:1"), 0)
        .unwrap();

    let deposit2 = Deposit { client_id: 2, tx_id: 2, amount: raw(200.0) };
    registry
        .process_command(2, TransactionTypeCommand::Deposit(deposit2), metadata("test:2:2"), 0)
        .unwrap();

    let state1 = registry.get_state(1).unwrap().unwrap();
    let state2 = registry.get_state(2).unwrap().unwrap();

    match state1 {
        AccountState::Active(a) => {
            assert_eq!(a.available, raw(100.0));
            assert_eq!(a.total, raw(100.0));
        }
        _ => panic!("Expected Active state for client 1"),
    }

    match state2 {
        AccountState::Active(a) => {
            assert_eq!(a.available, raw(200.0));
            assert_eq!(a.total, raw(200.0));
        }
        _ => panic!("Expected Active state for client 2"),
    }
}

#[test]
fn test_concurrent_client_operations() {
    let mut registry = ClientRegistry::with_namespace(String::from("test-2"));

    for client_id in 1..=10u16 {
        let deposit = Deposit { client_id, tx_id: client_id as u32, amount: raw(100.0) };
        let key = format!("test:{}:{}", client_id, client_id);
        registry
            .process_command(
                client_id,
                TransactionTypeCommand::Deposit(deposit),
                CommandMetadata { deduplication_key: DeduplicationKey::new(key) },
                0,
            )
            .unwrap();
    }

    for client_id in 1..=10u16 {
        let state = registry.get_state(client_id).unwrap().unwrap();
        match state {
            AccountState::Active(a) => {
                assert_eq!(a.available, raw(100.0));
                assert_eq!(a.total, raw(100.0));
            }
            _ => panic!("Expected Active state"),
        }
    }
}

#[test]
fn test_client_isolation_disputes_dont_affect_others() {
    let mut registry = ClientRegistry::with_namespace(String::from("test-3"));

    let deposit1 = Deposit { client_id: 1, tx_id: 1, amount: raw(100.0) };
    registry
        .process_command(1, TransactionTypeCommand::Deposit(deposit1), metadata("test:1:1"), 0)
        .unwrap();

    let dispute1 = Dispute { client_id: 1, tx_id: 1 };
    registry
        .process_command(
            1,
            TransactionTypeCommand::Dispute(dispute1),
            metadata("test:1:dispute"),
            0,
        )
        .unwrap();

    let deposit2 = Deposit { client_id: 2, tx_id: 2, amount: raw(200.0) };
    registry
        .process_command(2, TransactionTypeCommand::Deposit(deposit2), metadata("test:2:2"), 0)
        .unwrap();

    let state1 = registry.get_state(1).unwrap().unwrap();
    match state1 {
        AccountState::Active(a) => {
            assert_eq!(a.available, 0);
            assert_eq!(a.held, raw(100.0));
            assert_eq!(a.total, raw(100.0));
        }
        _ => panic!("Expected Active state for client 1"),
    }

    let state2 = registry.get_state(2).unwrap().unwrap();
    match state2 {
        AccountState::Active(a) => {
            assert_eq!(a.available, raw(200.0));
            assert_eq!(a.held, 0);
            assert_eq!(a.total, raw(200.0));
        }
        _ => panic!("Expected Active state for client 2"),
    }
}

#[test]
fn test_same_tx_id_different_clients() {
    let mut registry = ClientRegistry::with_namespace(String::from("test-4"));

    let deposit1 = Deposit { client_id: 1, tx_id: 1, amount: raw(100.0) };
    registry
        .process_command(1, TransactionTypeCommand::Deposit(deposit1), metadata("test:1:1"), 0)
        .unwrap();

    let deposit2 = Deposit { client_id: 2, tx_id: 1, amount: raw(200.0) };
    registry
        .process_command(2, TransactionTypeCommand::Deposit(deposit2), metadata("test:2:1"), 0)
        .unwrap();

    let state1 = registry.get_state(1).unwrap().unwrap();
    let state2 = registry.get_state(2).unwrap().unwrap();

    match state1 {
        AccountState::Active(a) => assert_eq!(a.total, raw(100.0)),
        _ => panic!("Expected Active state for client 1"),
    }

    match state2 {
        AccountState::Active(a) => assert_eq!(a.total, raw(200.0)),
        _ => panic!("Expected Active state for client 2"),
    }
}

#[test]
fn test_duplicate_submission_single_envelope_state_advances_once() {
    // The same deposit submitted twice under one deduplication key: the
    // state advances once and the registry reports the same totals.
    let mut registry = ClientRegistry::with_namespace(String::from("test-5"));

    let deposit = Deposit { client_id: 1, tx_id: 1, amount: raw(100.0) };
    registry
        .process_command(
            1,
            TransactionTypeCommand::Deposit(deposit),
            metadata("dup-key"),
            0,
        )
        .unwrap();

    let deposit_again = Deposit { client_id: 1, tx_id: 1, amount: raw(100.0) };
    registry
        .process_command(
            1,
            TransactionTypeCommand::Deposit(deposit_again),
            metadata("dup-key"),
            0,
        )
        .unwrap();

    let state = registry.get_state(1).unwrap().unwrap();
    match state {
        AccountState::Active(a) => {
            assert_eq!(a.available, raw(100.0));
            assert_eq!(a.total, raw(100.0));
        }
        _ => panic!("Expected Active state"),
    }

    let all = registry.get_all_states().unwrap();
    assert_eq!(all.len(), 1);
    assert_eq!(all[0].0, 1);
}

#[test]
fn test_get_state_unknown_client_is_none() {
    let registry = ClientRegistry::with_namespace(String::from("test-6"));
    assert!(registry.get_state(42).unwrap().is_none());
}

#[test]
fn test_shutdown_all_clears_clients() {
    let mut registry = ClientRegistry::new();

    let deposit = Deposit { client_id: 1, tx_id: 1, amount: raw(100.0) };
    registry
        .process_command(1, TransactionTypeCommand::Deposit(deposit), metadata("k1"), 0)
        .unwrap();
    assert_eq!(registry.get_all_states().unwrap().len(), 1);

    registry.shutdown_all();
    assert_eq!(registry.get_all_states().unwrap().len(), 0);
    assert!(registry.get_state(1).unwrap().is_none());
}
