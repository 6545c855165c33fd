//! Accounting core of a fungible-token ledger: per-account balances with a
//! global supply invariant, per-account storage-rent escrow gating account
//! registration, and a two-phase transfer protocol that reconciles the
//! amount a notified receiver reports as unused.

pub mod contract;
pub mod error;
pub mod laws;
pub mod ledger;
pub mod metadata;

pub use contract::Contract;
pub use error::Error;
pub use metadata::Metadata;
