//! A recurring, ticket-based lottery.
//!
//! Participants pay a fixed entry price into a shared pool while a round is
//! open. When the round is closed, three distinct ticket slots are drawn by a
//! deterministic, publicly reproducible procedure, the pool is split between
//! the holders of those slots and the administrator, and a fresh round opens.
//!
//! The crate holds the rules only. Balances, persistence and the validation of
//! account identifiers belong to the host, which hands the library plain
//! values and carries out what the library returns.

pub mod contract;
pub mod error;
pub mod laws;
pub mod msg;
pub mod payout;
pub mod random;
pub mod selection;
pub mod state;
