//! A single-pass ledger engine: it applies deposits, withdrawals, disputes,
//! resolves and chargebacks to per-client accounts.
//!
//! Amounts are fixed-point integers counted in ten-thousandths of a unit.

pub mod accounts;
pub mod custom_errors;
pub mod decode;
pub mod laws;
pub mod ledger;
pub mod numbers;
pub mod render;
pub mod transactions;
