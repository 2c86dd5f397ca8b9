//! A payments engine: per-client asset accounts driven by deposits, withdrawals and
//! the dispute lifecycle of deposits (dispute, resolve, chargeback).
//!
//! - `domain`: amounts in ten-thousandths, transactions and accounts.
//! - `engine`: the engine and its state machine, stated as `verdict` and `step`.
//! - `laws`, `accounting`: what every transaction, and every run of them, keeps.
//! - `csv_io`: input rows to transactions, rows to the engine, the account report.
//! - `decimal`: reading and writing amounts through `rust_decimal`.
pub mod csv_io;
pub mod decimal;
pub mod domain;
pub mod engine;
pub mod accounting;
pub mod laws;
pub mod row_laws;

pub use domain::{Account, Amount, Tx};
pub use engine::{Engine, IgnoreReason};
