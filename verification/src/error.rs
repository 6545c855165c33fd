//! Failure taxonomy of the ledger core. Every fallible operation reports one
//! of these; the contracts of the operations say exactly which error comes on
//! which input.

use vstd::prelude::*;

verus! {

/// The ways a ledger operation can be refused. No operation that returns one
/// of these has mutated the ledger.
#[derive(Clone, Copy, Debug, PartialEq, Eq, Structural)]
pub enum Error {
    /// The ledger was already initialized; initialization happens once.
    AlreadyInitialized,
    /// The metadata record offered at initialization is not well formed.
    InvalidMetadata,
    /// A transfer of zero tokens.
    ZeroAmount,
    /// A transfer whose sender and receiver are the same account.
    SelfTransfer,
    /// The named account has no row in the ledger.
    AccountNotRegistered,
    /// The account already has a row in the ledger.
    AlreadyRegistered,
    /// The attached or requested amount does not meet the storage-rent rules.
    InsufficientStorageDeposit,
    /// The account's balance is smaller than the amount to be taken from it.
    InsufficientBalance,
    /// A balance or the total supply would leave the unsigned 128-bit range.
    Overflow,
    /// Unregistering an account that still holds tokens, without force.
    NonZeroBalance,
}

} // verus!
