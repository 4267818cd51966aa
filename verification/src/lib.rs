//! An event-sourced payment processing engine.
//!
//! A stream of transaction commands (deposit, withdrawal, dispute, resolve,
//! chargeback) is validated against per-client account state, persisted as
//! events in an append-only journal with global sequence numbers and
//! deduplication, and then applied as pure state transitions.
//!
//! Monetary amounts are fixed-precision decimals with four fractional
//! digits, represented as a signed count of ten-thousandths. Timestamps are
//! plain milliseconds supplied by the caller.

pub mod callback;
pub mod client;
pub mod command;
pub mod decimal;
pub mod engine;
pub mod envelope;
pub mod error;
pub mod event;
pub mod handlers;
pub mod indexes;
pub mod journal;
pub mod lookup;
pub mod orchestrator;
pub mod processor;
pub mod registry;
pub mod state;
