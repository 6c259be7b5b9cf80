//! The protocol's error taxonomy.
//!
//! Every error is detected synchronously, before any state mutation, and
//! aborts the whole operation: no partial writes ever happen, and retrying an
//! operation without changing its inputs reproduces the same error.

use vstd::prelude::*;

verus! {

/// Why an operation was refused.
#[derive(Clone, Copy, Debug, PartialEq, Eq, Structural)]
pub enum SaidError {
    /// The treasury singleton already exists.
    AlreadyInitialized,
    /// An identity record already exists for this owner.
    DuplicateIdentity,
    /// A validation record already exists for this (identity, task) pair.
    DuplicateValidation,
    /// The referenced address holds no identity record.
    UnknownIdentity,
    /// The caller is not the principal the operation demands.
    Unauthorized,
    /// The withdrawal would take the treasury below its reserve.
    InsufficientTreasuryBalance,
    /// The paying account cannot cover the amount due.
    InsufficientPayerBalance,
    /// No disambiguator was found in the bounded probe space.  The probe
    /// always succeeds at its first candidate here, so no operation of this
    /// library returns it.
    DerivationExhausted,
}

} // verus!
