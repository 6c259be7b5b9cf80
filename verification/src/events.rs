//! Notification events.  Every successful mutating operation (except
//! treasury initialization) returns exactly one of these, describing the
//! state transition it applied, for downstream consumers of the event
//! stream.

use vstd::prelude::*;

use crate::address::Address;
use crate::address::TaskHash;

verus! {

/// A new agent identity was registered.
#[derive(Debug)]
pub struct AgentRegistered {
    /// Address of the new identity record.
    pub agent_id: Address,
    /// The registering principal.
    pub owner: u64,
    /// The metadata reference the identity was created with.
    pub metadata_uri: String,
    /// The registration fee collected, in native value units.
    pub fee_paid: u64,
}

/// An identity's metadata reference was replaced.
#[derive(Debug)]
pub struct AgentUpdated {
    /// Address of the updated identity record.
    pub agent_id: Address,
    /// The metadata reference it now holds.
    pub new_metadata_uri: String,
}

/// Feedback was submitted for an identity.
#[derive(Debug)]
pub struct FeedbackSubmitted {
    /// Address of the identity the feedback concerns.
    pub agent_id: Address,
    /// The reviewing principal.
    pub from: u64,
    /// Whether the feedback was positive.
    pub positive: bool,
    /// Free-form note accompanying the feedback.
    pub context: String,
    /// The reputation score after this feedback, in basis points.
    pub new_score: u16,
}

/// A third party attested to one completed task.
#[derive(Debug)]
pub struct WorkValidated {
    /// Address of the identity whose work was validated.
    pub agent_id: Address,
    /// The attesting principal.
    pub validator: u64,
    /// Identifier of the validated task.
    pub task_hash: TaskHash,
    /// The verdict.
    pub passed: bool,
    /// Reference to the validator's evidence.
    pub evidence_uri: String,
}

/// The authority withdrew fees from the treasury.
#[derive(Clone, Copy, Debug)]
pub struct FeesWithdrawn {
    /// The withdrawing principal.
    pub authority: u64,
    /// The amount withdrawn, in native value units.
    pub amount: u64,
}

} // verus!
