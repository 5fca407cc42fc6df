//! A small ledger engine: replays an ordered stream of financial events
//! (deposit, withdrawal, dispute, resolve, chargeback) into per-client
//! account balances, and exposes the final balances as a snapshot.
//!
//! Monetary amounts are fixed-point integers of minor units; the choice of
//! scale (for example four decimal places) belongs to the surrounding
//! program. All balance rules, including the clamping policy for
//! underfunded disputes, resolves and chargebacks, live here and are
//! verified. Reading the event stream and printing the snapshot are left
//! to the surrounding program.

pub mod account;
pub mod engine;
pub mod error;
pub mod event;
pub mod history;
pub mod laws;
