//! The two error families of the engine, both recoverable.

use vstd::prelude::*;

verus! {

/// Business-rule rejections raised while validating a command.
#[derive(Debug)]
pub enum TransactionError {
    InsufficientFunds,
    AccountLocked,
    TransactionNotFound,
    DuplicateTransaction,
    InvalidTransactionType,
    InvalidAmount,
    GeneralError(String),
}

/// Faults of the command pipeline itself.
#[derive(Debug)]
pub enum EngineError {
    LoadingResourcesError(String),
    ValidationError(String),
    EmittingEventError(String),
    SideEffectError(String),
    NoEvents,
    StateTransitionFailed,
}

/// Any error the engine can surface: a business-rule rejection or a
/// pipeline fault.
#[derive(Debug)]
pub enum PaymentError {
    Engine(EngineError),
    Transaction(TransactionError),
}

impl TransactionError {
    /// A short, fixed description of the error.
    pub fn message(&self) -> (r: &'static str)
        ensures
            r@.len() > 0,
    {
        let r = match self {
            TransactionError::InsufficientFunds => "Insufficient funds for transaction",
            TransactionError::AccountLocked => "Account is locked",
            TransactionError::TransactionNotFound => "Transaction not found",
            TransactionError::DuplicateTransaction => "Duplicate transaction ID",
            TransactionError::InvalidTransactionType => "Invalid transaction type",
            TransactionError::InvalidAmount => "Invalid amount (must be positive)",
            TransactionError::GeneralError(_) => "General transaction error",
        };
        proof {
            reveal_strlit("Insufficient funds for transaction");
            reveal_strlit("Account is locked");
            reveal_strlit("Transaction not found");
            reveal_strlit("Duplicate transaction ID");
            reveal_strlit("Invalid transaction type");
            reveal_strlit("Invalid amount (must be positive)");
            reveal_strlit("General transaction error");
        }
        r
    }
}

impl EngineError {
    /// A short, fixed description of the error.
    pub fn message(&self) -> (r: &'static str)
        ensures
            r@.len() > 0,
    {
        let r = match self {
            EngineError::LoadingResourcesError(_) => "Loading resources error",
            EngineError::ValidationError(_) => "Validation error",
            EngineError::EmittingEventError(_) => "Emitting event error",
            EngineError::SideEffectError(_) => "Effecting command error",
            EngineError::NoEvents => "No events produced by command handler",
            EngineError::StateTransitionFailed => "State transition failed - event could not be applied",
        };
        proof {
            reveal_strlit("Loading resources error");
            reveal_strlit("Validation error");
            reveal_strlit("Emitting event error");
            reveal_strlit("Effecting command error");
            reveal_strlit("No events produced by command handler");
            reveal_strlit("State transition failed - event could not be applied");
        }
        r
    }
}

impl PaymentError {
    /// A short, fixed description of the error.
    pub fn message(&self) -> (r: &'static str)
        ensures
            r@.len() > 0,
    {
        match self {
            PaymentError::Engine(e) => e.message(),
            PaymentError::Transaction(e) => e.message(),
        }
    }
}

} // verus!
