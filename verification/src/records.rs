//! The record schema: the four record kinds the registry stores, and the
//! well-formedness each kind maintains.
//!
//! Records are fixed-schema and append-only: no record is ever relocated or
//! deleted.  Each stores the disambiguator of its own address so later
//! lookups can re-derive the address without probing.

use vstd::prelude::*;

use crate::address::Address;

verus! {

/// Longest metadata or evidence reference a record may hold.
pub const MAX_METADATA_LEN: usize = 200;

/// The singleton treasury record: the protocol authority and the cumulative
/// fees collected.  `total_collected` only ever grows; withdrawals do not
/// decrement it, so it is a lifetime metric, not a balance.
#[derive(Clone, Copy, Debug)]
pub struct Treasury {
    /// The only principal allowed to withdraw fees; immutable after creation.
    pub authority: u64,
    /// Every fee ever collected, in native value units.
    pub total_collected: u64,
    /// Disambiguator of the treasury address.
    pub bump: u8,
}

/// A registered agent identity.  One exists per owner; the owner is
/// immutable, the metadata reference is mutable by the owner alone.
#[derive(Debug)]
pub struct AgentIdentity {
    /// The principal that registered, and alone may update, this identity.
    pub owner: u64,
    /// Reference to the agent's off-chain metadata.
    pub metadata_uri: String,
    /// When the identity was registered.
    pub created_at: i64,
    /// Disambiguator of the identity address.
    pub bump: u8,
}

/// Aggregated third-party feedback for one identity, created lazily on the
/// first feedback.
#[derive(Clone, Copy, Debug)]
pub struct AgentReputation {
    /// Address of the identity this reputation belongs to.
    pub agent_id: Address,
    /// How many feedback submissions this identity has received.
    pub total_interactions: u64,
    /// How many of them were positive.
    pub positive_feedback: u64,
    /// How many of them were negative.
    pub negative_feedback: u64,
    /// `floor(positive_feedback * 10000 / total_interactions)`, in basis
    /// points from 0 to 10000.
    pub reputation_score: u16,
    /// When feedback last arrived.
    pub last_updated: i64,
    /// Disambiguator of the reputation address.
    pub bump: u8,
}

/// An immutable third-party attestation of one completed task.  At most one
/// exists per (identity, task hash) pair, enforced by address derivation.
#[derive(Debug)]
pub struct ValidationRecord {
    /// Address of the identity whose work was validated.
    pub agent_id: Address,
    /// The principal that attested.
    pub validator: u64,
    /// Identifier of the validated task.
    pub task_hash: crate::address::TaskHash,
    /// The verdict.
    pub passed: bool,
    /// Reference to the validator's evidence.
    pub evidence_uri: String,
    /// When the attestation was recorded.
    pub timestamp: i64,
    /// Disambiguator of the validation address.
    pub bump: u8,
}

/// The reputation score that a counter pair yields: positive feedback as a
/// share of all interactions, in basis points, rounded down.
pub open spec fn score_of(positive: int, total: int) -> int
    recommends
        0 < total,
{
    positive * 10000 / total
}

impl AgentIdentity {
    /// An identity record is well-formed when its metadata reference is
    /// within bounds.
    pub open spec fn wf(self) -> bool {
        self.metadata_uri@.len() <= MAX_METADATA_LEN
    }
}

impl AgentReputation {
    /// A reputation record is well-formed when it points at an identity
    /// address, has seen at least one interaction (it is only created on
    /// first feedback), its interaction counter is exactly the sum of the
    /// positive and negative counters, and its score is derived from them.
    pub open spec fn wf(self) -> bool {
        &&& self.agent_id is Agent
        &&& self.total_interactions >= 1
        &&& self.total_interactions == self.positive_feedback + self.negative_feedback
        &&& self.reputation_score == score_of(
            self.positive_feedback as int,
            self.total_interactions as int,
        )
    }
}

impl ValidationRecord {
    /// A validation record is well-formed when it points at an identity
    /// address and its evidence reference is within bounds.
    pub open spec fn wf(self) -> bool {
        &&& self.agent_id is Agent
        &&& self.evidence_uri@.len() <= MAX_METADATA_LEN
    }
}

/// A score is never negative and never exceeds 10000 basis points.
pub proof fn lemma_score_bounded(positive: int, total: int)
    requires
        0 <= positive <= total,
        1 <= total,
    ensures
        0 <= score_of(positive, total) <= 10000,
{
    assert(0 <= positive * 10000 / total <= 10000) by (nonlinear_arith)
        requires
            0 <= positive <= total,
            1 <= total,
    ;
}

} // verus!
