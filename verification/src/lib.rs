//! A governance module in which a designated owner publishes voting
//! proposals (each with candidates and an expiration), any caller may cast a
//! unit-weight vote toward a candidate, and a winner is computed by tally.
//!
//! The module is a deterministic state-transition unit: all durable data is
//! modelled by the [`state::State`] value, every mutating operation is an
//! atomic transition on it, and every successful mutation appends the block
//! height it observed to a strictly increasing audit log.

pub mod error;
pub mod execute;
pub mod msg;
pub mod query;
pub mod state;

pub use crate::error::ContractError;
