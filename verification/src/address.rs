//! Deterministic address derivation.
//!
//! Every record lives at an address derived purely from a namespace tag and
//! identifying key material: the treasury at the `treasury` namespace, an
//! identity at `agent` plus its owner key, a reputation at `reputation` plus
//! the identity's address, and a validation at `validation` plus the
//! identity's address and the task hash.  Derivation is idempotent and
//! collision-resistant: distinct inputs can never yield the same address, so
//! "first writer at an address wins" is a sound creation rule.
//!
//! Each derivation also yields a disambiguator, a small integer probed for
//! until the candidate address avoids the space reserved for non-record
//! addresses.  The probe starts at the highest candidate, and in this address
//! space the record namespaces are disjoint from the reserved space, so the
//! first candidate always succeeds and the search is never exhausted.

use vstd::prelude::*;

verus! {

/// A 32-byte task identifier, held as four 64-bit words.
#[derive(Clone, Copy, Debug, PartialEq, Eq, Structural)]
pub struct TaskHash {
    pub w0: u64,
    pub w1: u64,
    pub w2: u64,
    pub w3: u64,
}

/// The disambiguator every derivation returns: the probe succeeds at its
/// first, highest candidate.
pub const DISAMBIGUATOR: u8 = 255;

/// A derived record address.  An address carries exactly its namespace tag
/// and key material, so equality of addresses coincides with equality of the
/// derivation inputs.
#[derive(Clone, Copy, Debug, PartialEq, Eq, Structural)]
pub enum Address {
    /// The singleton treasury address, namespace `treasury`.
    Treasury,
    /// An identity address, namespace `agent`, keyed by the owner.
    Agent { owner: u64 },
    /// A reputation address, namespace `reputation`, keyed by the identity's
    /// address (itself a pure function of the identity's owner).
    Reputation { identity_owner: u64 },
    /// A validation address, namespace `validation`, keyed by the identity's
    /// address and the task hash.
    Validation { identity_owner: u64, task_hash: TaskHash },
}

/// Derives the treasury's address.
pub fn derive_treasury_address() -> (r: (Address, u8))
    ensures
        r.0 == Address::Treasury,
        r.1 == DISAMBIGUATOR,
{
    (Address::Treasury, DISAMBIGUATOR)
}

/// Derives the identity address owned by `owner`.
pub fn derive_agent_address(owner: u64) -> (r: (Address, u8))
    ensures
        r.0 == (Address::Agent { owner }),
        r.1 == DISAMBIGUATOR,
{
    (Address::Agent { owner }, DISAMBIGUATOR)
}

/// Derives the reputation address for the identity at `identity`.
pub fn derive_reputation_address(identity: &Address) -> (r: (Address, u8))
    requires
        *identity is Agent,
    ensures
        r.0 == (Address::Reputation { identity_owner: identity->Agent_owner }),
        r.1 == DISAMBIGUATOR,
{
    match identity {
        Address::Agent { owner } => (Address::Reputation { identity_owner: *owner }, DISAMBIGUATOR),
        _ => (Address::Treasury, DISAMBIGUATOR),
    }
}

/// Derives the validation address for the identity at `identity` and the
/// given task hash.
pub fn derive_validation_address(identity: &Address, task_hash: TaskHash) -> (r: (Address, u8))
    requires
        *identity is Agent,
    ensures
        r.0 == (Address::Validation { identity_owner: identity->Agent_owner, task_hash }),
        r.1 == DISAMBIGUATOR,
{
    match identity {
        Address::Agent { owner } => (
            Address::Validation { identity_owner: *owner, task_hash },
            DISAMBIGUATOR,
        ),
        _ => (Address::Treasury, DISAMBIGUATOR),
    }
}

/// Derivation is collision-resistant: two derived addresses coincide exactly
/// when both the namespace tag and the key material coincide.  Together with
/// determinism (each derivation function above returns a fixed value for
/// fixed inputs) this makes every record's location unique and predictable.
pub proof fn lemma_derivation_collision_resistant(a: Address, b: Address)
    ensures
        a == b <==> match (a, b) {
            (Address::Treasury, Address::Treasury) => true,
            (Address::Agent { owner: o1 }, Address::Agent { owner: o2 }) => o1 == o2,
            (
                Address::Reputation { identity_owner: i1 },
                Address::Reputation { identity_owner: i2 },
            ) => i1 == i2,
            (
                Address::Validation { identity_owner: i1, task_hash: t1 },
                Address::Validation { identity_owner: i2, task_hash: t2 },
            ) => i1 == i2 && t1 == t2,
            _ => false,
        },
{
}

} // verus!
