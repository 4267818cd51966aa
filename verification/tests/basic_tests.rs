//! End-to-end command processing through the engine for a single client.

use payment::command::{
    Chargeback, Deposit, Dispute, Resolve, TransactionTypeCommand, Withdraw,
};
use payment::engine::{EngineContext, PaymentEngine};
use payment::envelope::{CommandMetadata, DeduplicationKey};
use payment::error::PaymentError;
use payment::indexes::InMemoryDisputeIndex;
use payment::journal::InMemoryJournal;
use payment::state::{AccountState, ActiveAccountState};

/// A monetary amount in ten-thousandths, from a plain decimal value.
fn raw(x: f64) -> i64 {
    (x * 10000.0).round() as i64
}

/// A complete engine setup for one account.
struct TestContext {
    journal: InMemoryJournal,
    dispute_index: InMemoryDisputeIndex,
    engine: PaymentEngine,
    account_state: AccountState,
    counter: u64,
}

impl TestContext {
    fn new() -> Self {
        TestContext {
            journal: InMemoryJournal::new(),
            dispute_index: InMemoryDisputeIndex::new(),
            engine: PaymentEngine::new(),
            account_state: AccountState::Active(ActiveAccountState {
                available: 0,
                held: 0,
                total: 0,
                last_activity: 0,
            }),
            counter: 0,
        }
    }

    fn process(
        &mut self,
        command: TransactionTypeCommand,
        client_id: u16,
    ) -> Result<(), PaymentError> {
        self.counter += 1;
        let dedup_key = format!("test:{}:{}", client_id, self.counter);
        let metadata =
            CommandMetadata { deduplication_key: DeduplicationKey::new(dedup_key) };
        let context = EngineContext { current_state: self.account_state };
        let (_envelope, new_state) = self.engine.process_command(
            command,
            metadata,
            &context,
            &mut self.journal,
            &mut self.dispute_index,
            0,
        )?;
        self.account_state = new_state;
        Ok(())
    }

    fn available(&self) -> i64 {
        match &self.account_state {
            AccountState::Active(s) => s.available,
            AccountState::Frozen(s) => s.available,
        }
    }

    fn held(&self) -> i64 {
        match &self.account_state {
            AccountState::Active(s) => s.held,
            AccountState::Frozen(s) => s.held,
        }
    }

    fn total(&self) -> i64 {
        match &self.account_state {
            AccountState::Active(s) => s.total,
            AccountState::Frozen(s) => s.total,
        }
    }

    fn is_frozen(&self) -> bool {
        matches!(self.account_state, AccountState::Frozen(_))
    }

    fn assert_balances(&self, available: f64, held: f64, total: f64) {
        assert_eq!(self.available(), raw(available), "Available balance mismatch");
        assert_eq!(self.held(), raw(held), "Held balance mismatch");
        assert_eq!(self.total(), raw(total), "Total balance mismatch");
    }
}

fn deposit(client: u16, tx: u32, amount: f64) -> TransactionTypeCommand {
    TransactionTypeCommand::Deposit(Deposit { client_id: client, tx_id: tx, amount: raw(amount) })
}

fn withdrawal(client: u16, tx: u32, amount: f64) -> TransactionTypeCommand {
    TransactionTypeCommand::Withdrawal(Withdraw {
        client_id: client,
        tx_id: tx,
        amount: raw(amount),
    })
}

fn dispute(client: u16, tx: u32) -> TransactionTypeCommand {
    TransactionTypeCommand::Dispute(Dispute { client_id: client, tx_id: tx })
}

fn resolve(client: u16, tx: u32) -> TransactionTypeCommand {
    TransactionTypeCommand::Resolve(Resolve { client_id: client, tx_id: tx })
}

fn chargeback(client: u16, tx: u32) -> TransactionTypeCommand {
    TransactionTypeCommand::Chargeback(Chargeback { client_id: client, tx_id: tx })
}

#[test]
fn test_deposit_increases_balance() {
    let mut ctx = TestContext::new();

    ctx.process(deposit(1, 1, 100.0), 1).unwrap();

    ctx.assert_balances(100.0, 0.0, 100.0);
    assert!(!ctx.is_frozen());
}

#[test]
fn test_multiple_deposits() {
    let mut ctx = TestContext::new();

    ctx.process(deposit(1, 1, 50.0), 1).unwrap();
    ctx.process(deposit(1, 2, 75.5), 1).unwrap();
    ctx.process(deposit(1, 3, 24.5), 1).unwrap();

    ctx.assert_balances(150.0, 0.0, 150.0);
}

#[test]
fn test_precision_four_decimal_places() {
    let mut ctx = TestContext::new();

    ctx.process(deposit(1, 1, 1.2345), 1).unwrap();
    ctx.process(deposit(1, 2, 2.6789), 1).unwrap();

    assert_eq!(ctx.total(), raw(3.9134));
}

#[test]
fn test_withdrawal_decreases_balance() {
    let mut ctx = TestContext::new();

    ctx.process(deposit(1, 1, 100.0), 1).unwrap();
    ctx.process(withdrawal(1, 2, 30.0), 1).unwrap();

    ctx.assert_balances(70.0, 0.0, 70.0);
}

#[test]
fn test_withdrawal_with_insufficient_funds_fails() {
    let mut ctx = TestContext::new();

    ctx.process(deposit(1, 1, 50.0), 1).unwrap();

    let result = ctx.process(withdrawal(1, 2, 100.0), 1);

    assert!(result.is_err(), "Withdrawal should fail with insufficient funds");
    ctx.assert_balances(50.0, 0.0, 50.0);
}

#[test]
fn test_withdrawal_with_exact_balance() {
    let mut ctx = TestContext::new();

    ctx.process(deposit(1, 1, 100.0), 1).unwrap();
    ctx.process(withdrawal(1, 2, 100.0), 1).unwrap();

    ctx.assert_balances(0.0, 0.0, 0.0);
}

#[test]
fn test_dispute_holds_funds() {
    let mut ctx = TestContext::new();

    ctx.process(deposit(1, 1, 100.0), 1).unwrap();

    ctx.process(dispute(1, 1), 1).unwrap();

    ctx.assert_balances(0.0, 100.0, 100.0);
    assert!(!ctx.is_frozen());
}

#[test]
fn test_dispute_nonexistent_transaction_ignored() {
    let mut ctx = TestContext::new();

    ctx.process(deposit(1, 1, 100.0), 1).unwrap();

    let result = ctx.process(dispute(1, 999), 1);

    assert!(result.is_err(), "Disputing nonexistent tx should fail");
    ctx.assert_balances(100.0, 0.0, 100.0);
}

#[test]
fn test_resolve_releases_held_funds() {
    let mut ctx = TestContext::new();

    ctx.process(deposit(1, 1, 100.0), 1).unwrap();
    ctx.process(dispute(1, 1), 1).unwrap();
    ctx.assert_balances(0.0, 100.0, 100.0);

    ctx.process(resolve(1, 1), 1).unwrap();

    ctx.assert_balances(100.0, 0.0, 100.0);
    assert!(!ctx.is_frozen());
}

#[test]
fn test_resolve_without_dispute_ignored() {
    let mut ctx = TestContext::new();

    ctx.process(deposit(1, 1, 100.0), 1).unwrap();

    let result = ctx.process(resolve(1, 1), 1);
    assert!(result.is_err(), "Resolve without dispute should fail validation");

    ctx.assert_balances(100.0, 0.0, 100.0);
}

#[test]
fn test_chargeback_reverses_transaction_and_freezes_account() {
    let mut ctx = TestContext::new();

    ctx.process(deposit(1, 1, 100.0), 1).unwrap();
    ctx.process(dispute(1, 1), 1).unwrap();
    ctx.assert_balances(0.0, 100.0, 100.0);

    ctx.process(chargeback(1, 1), 1).unwrap();

    ctx.assert_balances(0.0, 0.0, 0.0);
    assert!(ctx.is_frozen(), "Account should be frozen after chargeback");
}

#[test]
fn test_chargeback_without_dispute_ignored() {
    let mut ctx = TestContext::new();

    ctx.process(deposit(1, 1, 100.0), 1).unwrap();

    let result = ctx.process(chargeback(1, 1), 1);
    assert!(result.is_err(), "Chargeback without dispute should fail");

    ctx.assert_balances(100.0, 0.0, 100.0);
    assert!(!ctx.is_frozen());
}

#[test]
fn test_frozen_account_cannot_withdraw() {
    let mut ctx = TestContext::new();

    ctx.process(deposit(1, 1, 100.0), 1).unwrap();
    ctx.process(deposit(1, 2, 50.0), 1).unwrap();
    ctx.process(dispute(1, 1), 1).unwrap();
    ctx.process(chargeback(1, 1), 1).unwrap();

    assert!(ctx.is_frozen());
    ctx.assert_balances(50.0, 0.0, 50.0);

    let result = ctx.process(withdrawal(1, 3, 10.0), 1);

    assert!(result.is_err(), "Withdrawal should fail on frozen account");
    ctx.assert_balances(50.0, 0.0, 50.0);
}

#[test]
fn test_frozen_account_can_receive_deposits() {
    let mut ctx = TestContext::new();

    ctx.process(deposit(1, 1, 100.0), 1).unwrap();
    ctx.process(dispute(1, 1), 1).unwrap();
    ctx.process(chargeback(1, 1), 1).unwrap();

    assert!(ctx.is_frozen());
    ctx.assert_balances(0.0, 0.0, 0.0);

    ctx.process(deposit(1, 2, 50.0), 1).unwrap();

    ctx.assert_balances(50.0, 0.0, 50.0);
    assert!(ctx.is_frozen());
}

#[test]
fn test_frozen_account_can_be_disputed() {
    let mut ctx = TestContext::new();

    ctx.process(deposit(1, 1, 100.0), 1).unwrap();
    ctx.process(deposit(1, 2, 50.0), 1).unwrap();
    ctx.process(dispute(1, 1), 1).unwrap();
    ctx.process(chargeback(1, 1), 1).unwrap();

    assert!(ctx.is_frozen());
    ctx.assert_balances(50.0, 0.0, 50.0);

    ctx.process(dispute(1, 2), 1).unwrap();

    ctx.assert_balances(0.0, 50.0, 50.0);
}

#[test]
fn test_dispute_of_resolved_transaction_rejected() {
    let mut ctx = TestContext::new();

    ctx.process(deposit(1, 1, 100.0), 1).unwrap();
    ctx.process(dispute(1, 1), 1).unwrap();
    ctx.process(resolve(1, 1), 1).unwrap();
    ctx.assert_balances(100.0, 0.0, 100.0);

    let result = ctx.process(dispute(1, 1), 1);
    assert!(result.is_err(), "Dispute of an already-resolved transaction should be rejected");
    ctx.assert_balances(100.0, 0.0, 100.0);
}

#[test]
fn test_dispute_of_charged_back_transaction_rejected() {
    let mut ctx = TestContext::new();

    ctx.process(deposit(1, 1, 100.0), 1).unwrap();
    ctx.process(deposit(1, 2, 50.0), 1).unwrap();
    ctx.process(dispute(1, 1), 1).unwrap();
    ctx.process(chargeback(1, 1), 1).unwrap();
    ctx.assert_balances(50.0, 0.0, 50.0);

    let result = ctx.process(dispute(1, 1), 1);
    assert!(result.is_err(), "Dispute of a charged-back transaction should be rejected");
    ctx.assert_balances(50.0, 0.0, 50.0);
}

#[test]
fn test_complex_scenario_from_spec() {
    let mut ctx = TestContext::new();

    ctx.process(deposit(1, 1, 1.0), 1).unwrap();
    ctx.process(deposit(1, 3, 2.0), 1).unwrap();
    ctx.process(withdrawal(1, 4, 1.5), 1).unwrap();

    ctx.assert_balances(1.5, 0.0, 1.5);
}

#[test]
fn test_duplicate_command_advances_state_once() {
    // The same command under the same deduplication key, submitted twice:
    // one envelope in the journal, equal sequence numbers, state advances
    // once.
    let mut ctx = TestContext::new();

    let metadata1 = CommandMetadata {
        deduplication_key: DeduplicationKey::new(String::from("same-key")),
    };
    let metadata2 = CommandMetadata {
        deduplication_key: DeduplicationKey::new(String::from("same-key")),
    };

    let context1 = EngineContext { current_state: ctx.account_state };
    let (envelope1, new_state) = ctx
        .engine
        .process_command(
            deposit(1, 1, 100.0),
            metadata1,
            &context1,
            &mut ctx.journal,
            &mut ctx.dispute_index,
            0,
        )
        .unwrap();
    ctx.account_state = new_state;

    let context2 = EngineContext { current_state: ctx.account_state };
    let (envelope2, _again) = ctx
        .engine
        .process_command(
            deposit(1, 1, 100.0),
            metadata2,
            &context2,
            &mut ctx.journal,
            &mut ctx.dispute_index,
            0,
        )
        .unwrap();

    assert_eq!(envelope1.sequence_nr, envelope2.sequence_nr);
    let events = ctx.journal.replay(None).unwrap();
    assert_eq!(events.len(), 1);
    ctx.assert_balances(100.0, 0.0, 100.0);
}
