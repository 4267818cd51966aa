//! Event handlers: pure state transitions, one per event kind.

use payment::event::{Chargebacked, Deposited, Disputed, Resolved, Withdrawn};
use payment::state::{AccountState, ActiveAccountState, FrozenAccountState};

/// A monetary amount in ten-thousandths, from a plain decimal value.
fn raw(x: f64) -> i64 {
    (x * 10000.0).round() as i64
}

fn active(available: f64, held: f64, total: f64) -> AccountState {
    AccountState::Active(ActiveAccountState {
        available: raw(available),
        held: raw(held),
        total: raw(total),
        last_activity: 0,
    })
}

fn frozen(available: f64, held: f64, total: f64) -> AccountState {
    AccountState::Frozen(FrozenAccountState {
        available: raw(available),
        held: raw(held),
        total: raw(total),
        last_activity: 0,
    })
}

#[test]
fn test_deposited_updates_balance() {
    let event = Deposited { client_id: 1, tx_id: 1, amount: raw(100.0) };
    let state = active(0.0, 0.0, 0.0);

    let new_state = event.apply(&state, 0).expect("Should apply successfully");

    match new_state {
        AccountState::Active(a) => {
            assert_eq!(a.available, raw(100.0));
            assert_eq!(a.held, raw(0.0));
            assert_eq!(a.total, raw(100.0));
        }
        _ => panic!("Expected Active state"),
    }
}

#[test]
fn test_deposited_on_frozen_account() {
    let event = Deposited { client_id: 1, tx_id: 1, amount: raw(50.0) };
    let state = frozen(100.0, 0.0, 100.0);

    let new_state = event.apply(&state, 0).expect("Frozen accounts can receive deposits");

    match new_state {
        AccountState::Frozen(f) => {
            assert_eq!(f.available, raw(150.0));
            assert_eq!(f.total, raw(150.0));
        }
        _ => panic!("Should remain frozen"),
    }
}

#[test]
fn test_deposited_accumulates_correctly() {
    let event = Deposited { client_id: 1, tx_id: 2, amount: raw(75.5) };
    let state = active(100.0, 0.0, 100.0);

    let new_state = event.apply(&state, 0).expect("Should apply successfully");

    match new_state {
        AccountState::Active(a) => {
            assert_eq!(a.available, raw(175.5));
            assert_eq!(a.total, raw(175.5));
        }
        _ => panic!("Expected Active state"),
    }
}

#[test]
fn test_withdrawn_decreases_balance() {
    let event = Withdrawn { client_id: 1, tx_id: 2, amount: raw(30.0) };
    let state = active(100.0, 0.0, 100.0);

    let new_state = event.apply(&state, 0).expect("Should apply successfully");

    match new_state {
        AccountState::Active(a) => {
            assert_eq!(a.available, raw(70.0));
            assert_eq!(a.total, raw(70.0));
        }
        _ => panic!("Expected Active state"),
    }
}

#[test]
fn test_withdrawn_on_frozen_account_rejected() {
    let event = Withdrawn { client_id: 1, tx_id: 2, amount: raw(30.0) };
    let state = frozen(100.0, 0.0, 100.0);

    let result = event.apply(&state, 0);
    assert!(result.is_none(), "Withdrawal should be rejected on frozen account");
}

#[test]
fn test_withdrawn_exact_balance() {
    let event = Withdrawn { client_id: 1, tx_id: 2, amount: raw(100.0) };
    let state = active(100.0, 0.0, 100.0);

    let new_state = event.apply(&state, 0).expect("Should apply successfully");

    match new_state {
        AccountState::Active(a) => {
            assert_eq!(a.available, 0);
            assert_eq!(a.total, 0);
        }
        _ => panic!("Expected Active state"),
    }
}

#[test]
fn test_disputed_moves_funds_to_held() {
    let event = Disputed { client_id: 1, tx_id: 1, amount: raw(100.0) };
    let state = active(100.0, 0.0, 100.0);

    let new_state = event.apply(&state, 0).expect("Should apply successfully");

    match new_state {
        AccountState::Active(a) => {
            assert_eq!(a.available, 0);
            assert_eq!(a.held, raw(100.0));
            assert_eq!(a.total, raw(100.0));
        }
        _ => panic!("Expected Active state"),
    }
}

#[test]
fn test_disputed_on_frozen_account() {
    let event = Disputed { client_id: 1, tx_id: 1, amount: raw(50.0) };
    let state = frozen(100.0, 0.0, 100.0);

    let new_state = event.apply(&state, 0).expect("Frozen accounts can initiate disputes");

    match new_state {
        AccountState::Frozen(f) => {
            assert_eq!(f.available, raw(50.0));
            assert_eq!(f.held, raw(50.0));
            assert_eq!(f.total, raw(100.0));
        }
        _ => panic!("Should remain frozen"),
    }
}

#[test]
fn test_disputed_partial_amount() {
    let event = Disputed { client_id: 1, tx_id: 1, amount: raw(75.0) };
    let state = active(200.0, 0.0, 200.0);

    let new_state = event.apply(&state, 0).expect("Should apply successfully");

    match new_state {
        AccountState::Active(a) => {
            assert_eq!(a.available, raw(125.0));
            assert_eq!(a.held, raw(75.0));
            assert_eq!(a.total, raw(200.0));
        }
        _ => panic!("Expected Active state"),
    }
}

#[test]
fn test_resolved_releases_held_funds() {
    let event = Resolved { client_id: 1, tx_id: 1, amount: raw(100.0) };
    let state = active(0.0, 100.0, 100.0);

    let new_state = event.apply(&state, 0).expect("Should apply successfully");

    match new_state {
        AccountState::Active(a) => {
            assert_eq!(a.available, raw(100.0));
            assert_eq!(a.held, 0);
            assert_eq!(a.total, raw(100.0));
        }
        _ => panic!("Expected Active state"),
    }
}

#[test]
fn test_resolved_with_insufficient_held_funds() {
    let event = Resolved { client_id: 1, tx_id: 1, amount: raw(150.0) };
    let state = active(0.0, 100.0, 100.0);

    let result = event.apply(&state, 0);
    assert!(result.is_none(), "Should reject resolve with insufficient held funds");
}

#[test]
fn test_resolved_partial_amount() {
    let event = Resolved { client_id: 1, tx_id: 1, amount: raw(50.0) };
    let state = active(0.0, 100.0, 100.0);

    let new_state = event.apply(&state, 0).expect("Should apply successfully");

    match new_state {
        AccountState::Active(a) => {
            assert_eq!(a.available, raw(50.0));
            assert_eq!(a.held, raw(50.0));
            assert_eq!(a.total, raw(100.0));
        }
        _ => panic!("Expected Active state"),
    }
}

#[test]
fn test_resolved_on_frozen_account() {
    let event = Resolved { client_id: 1, tx_id: 1, amount: raw(50.0) };
    let state = frozen(0.0, 100.0, 100.0);

    let new_state = event.apply(&state, 0).expect("Should apply successfully");

    match new_state {
        AccountState::Frozen(f) => {
            assert_eq!(f.available, raw(50.0));
            assert_eq!(f.held, raw(50.0));
            assert_eq!(f.total, raw(100.0));
        }
        _ => panic!("Should remain frozen"),
    }
}

#[test]
fn test_chargebacked_reverses_and_freezes() {
    let event = Chargebacked { client_id: 1, tx_id: 1, amount: raw(100.0) };
    let state = active(0.0, 100.0, 100.0);

    let new_state = event.apply(&state, 0).expect("Should apply successfully");

    match new_state {
        AccountState::Frozen(f) => {
            assert_eq!(f.available, 0);
            assert_eq!(f.held, 0);
            assert_eq!(f.total, 0);
        }
        _ => panic!("Expected Frozen state"),
    }
}

#[test]
fn test_chargebacked_with_insufficient_held_funds() {
    let event = Chargebacked { client_id: 1, tx_id: 1, amount: raw(150.0) };
    let state = active(0.0, 100.0, 100.0);

    let result = event.apply(&state, 0);
    assert!(result.is_none(), "Should reject chargeback with insufficient held funds");
}

#[test]
fn test_chargebacked_on_already_frozen_account() {
    let event = Chargebacked { client_id: 1, tx_id: 1, amount: raw(50.0) };
    let state = frozen(100.0, 50.0, 150.0);

    let new_state = event.apply(&state, 0).expect("Should apply successfully");

    match new_state {
        AccountState::Frozen(f) => {
            assert_eq!(f.available, raw(100.0));
            assert_eq!(f.held, 0);
            assert_eq!(f.total, raw(100.0));
        }
        _ => panic!("Expected Frozen state"),
    }
}

#[test]
fn test_chargebacked_partial_amount() {
    let event = Chargebacked { client_id: 1, tx_id: 1, amount: raw(50.0) };
    let state = active(100.0, 50.0, 150.0);

    let new_state = event.apply(&state, 0).expect("Should apply successfully");

    match new_state {
        AccountState::Frozen(f) => {
            assert_eq!(f.available, raw(100.0));
            assert_eq!(f.held, 0);
            assert_eq!(f.total, raw(100.0));
        }
        _ => panic!("Expected Frozen state"),
    }
}
