//! A decentralized identity and reputation registry.
//!
//! Agents register an identity record against payment of a fee, accumulate a
//! reputation score from third-party feedback, and receive attestations of
//! completed work from independent validators.  A treasury collects the
//! registration fees and lets the protocol authority withdraw anything above a
//! reserved minimum.
//!
//! The host execution environment (the ledger that sequences operations,
//! verifies caller signatures, executes value transfers and supplies the
//! clock) is an external collaborator.  The library models its narrow
//! interfaces as plain values: principals are key identifiers, timestamps are
//! passed in by the caller, and account balances live in an explicit ledger
//! inside [`registry::Registry`].

use vstd::prelude::*;

pub mod address;
pub mod errors;
pub mod events;
pub mod records;
pub mod registry;

pub use address::Address;
pub use address::TaskHash;
pub use address::DISAMBIGUATOR;
pub use errors::SaidError;
pub use events::AgentRegistered;
pub use events::AgentUpdated;
pub use events::FeedbackSubmitted;
pub use events::FeesWithdrawn;
pub use events::WorkValidated;
pub use records::AgentIdentity;
pub use records::AgentReputation;
pub use records::Treasury;
pub use records::ValidationRecord;
pub use records::MAX_METADATA_LEN;
pub use registry::AccountBalance;
pub use registry::InitializeTreasury;
pub use registry::Registry;
pub use registry::RegisterAgent;
pub use registry::SubmitFeedback;
pub use registry::UpdateAgent;
pub use registry::ValidateWork;
pub use registry::WithdrawFees;

verus! {

/// Fee charged, in native value units, when an agent identity is registered.
pub const REGISTRATION_FEE: u64 = 5_000_000;

/// Fee declared for work validation, in native value units.  No operation
/// charges it in this version of the protocol.
pub const VALIDATION_FEE: u64 = 1_000_000;

/// Minimum balance the treasury must retain: the storage cost of the treasury
/// record itself.  Withdrawals may never take the treasury below this reserve.
pub const TREASURY_RESERVE: u64 = 1_231_920;

} // verus!
