//! The registry state machine.
//!
//! [`Registry`] models the whole record store of the protocol: the treasury
//! singleton, the identity, reputation and validation records, and the
//! native-value ledger the host settles transfers against.  Each of the six
//! operations is one externally sequenced, all-or-nothing transaction: it
//! performs its authorization and duplicate checks first and mutates nothing
//! unless every check passes.
//!
//! Creation races are resolved by address derivation: the first writer at a
//! derived address wins and a second writer fails, which is exactly what
//! rejects duplicate registrations and duplicate validations.

use vstd::prelude::*;

use crate::address::derive_agent_address;
use crate::address::derive_reputation_address;
use crate::address::derive_treasury_address;
use crate::address::derive_validation_address;
use crate::address::Address;
use crate::address::TaskHash;
use crate::errors::SaidError;
use crate::events::AgentRegistered;
use crate::events::AgentUpdated;
use crate::events::FeedbackSubmitted;
use crate::events::FeesWithdrawn;
use crate::events::WorkValidated;
use crate::records::score_of;
use crate::records::AgentIdentity;
use crate::records::AgentReputation;
use crate::records::Treasury;
use crate::records::ValidationRecord;
use crate::records::MAX_METADATA_LEN;
use crate::REGISTRATION_FEE;
use crate::TREASURY_RESERVE;

verus! {

/// One account of the native-value ledger.
#[derive(Clone, Copy, Debug)]
pub struct AccountBalance {
    /// The principal holding the value.
    pub principal: u64,
    /// The value held, in native value units.
    pub value: u64,
}

/// The accounts the treasury initialization touches.
#[derive(Clone, Copy, Debug)]
pub struct InitializeTreasury {
    /// The caller; becomes the treasury authority and funds the treasury
    /// record's reserve.
    pub authority: u64,
}

/// The accounts a registration touches.
#[derive(Clone, Copy, Debug)]
pub struct RegisterAgent {
    /// The caller; becomes the identity's owner and pays the registration
    /// fee.
    pub owner: u64,
}

/// The accounts a withdrawal touches.
#[derive(Clone, Copy, Debug)]
pub struct WithdrawFees {
    /// The caller; must be the stored treasury authority.
    pub authority: u64,
}

/// The accounts a metadata update touches.
#[derive(Clone, Copy, Debug)]
pub struct UpdateAgent {
    /// Address of the identity record to update.
    pub agent_identity: Address,
    /// The caller; must be the identity's stored owner.
    pub owner: u64,
}

/// The accounts a feedback submission touches.
#[derive(Clone, Copy, Debug)]
pub struct SubmitFeedback {
    /// Address of the identity the feedback concerns.
    pub agent_identity: Address,
    /// The caller.  Any principal may review.
    pub reviewer: u64,
}

/// The accounts a work validation touches.
#[derive(Clone, Copy, Debug)]
pub struct ValidateWork {
    /// Address of the identity whose work is attested.
    pub agent_identity: Address,
    /// The caller.  Any principal may attest.
    pub validator: u64,
}

/// No two ledger entries belong to the same principal.
pub open spec fn unique_principals(s: Seq<AccountBalance>) -> bool {
    forall|i: int, j: int| 0 <= i < j < s.len() ==> s[i].principal != s[j].principal
}

/// Some ledger entry belongs to `p`.
pub open spec fn has_entry(s: Seq<AccountBalance>, p: u64) -> bool {
    exists|i: int| 0 <= i < s.len() && s[i].principal == p
}

/// Index of the ledger entry belonging to `p`.
pub open spec fn entry_index(s: Seq<AccountBalance>, p: u64) -> int {
    choose|i: int| 0 <= i < s.len() && s[i].principal == p
}

/// The balance of `p`: the value of its ledger entry, or zero if it has
/// none.
pub open spec fn balance_in(s: Seq<AccountBalance>, p: u64) -> int {
    if has_entry(s, p) {
        s[entry_index(s, p)].value as int
    } else {
        0
    }
}

proof fn lemma_entry_at(s: Seq<AccountBalance>, p: u64, i: int)
    requires
        unique_principals(s),
        0 <= i < s.len(),
        s[i].principal == p,
    ensures
        has_entry(s, p),
        entry_index(s, p) == i,
        balance_in(s, p) == s[i].value as int,
{
    assert(has_entry(s, p));
    let k = entry_index(s, p);
    if k < i {
        assert(s[k].principal != s[i].principal);
    }
    if i < k {
        assert(s[i].principal != s[k].principal);
    }
}

fn find_entry(s: &Vec<AccountBalance>, p: u64) -> (r: Option<usize>)
    requires
        unique_principals(s@),
    ensures
        match r {
            Some(i) => {
                &&& i < s@.len()
                &&& s@[i as int].principal == p
                &&& entry_index(s@, p) == i
                &&& balance_in(s@, p) == s@[i as int].value as int
            },
            None => !has_entry(s@, p) && balance_in(s@, p) == 0,
        },
{
    let mut i: usize = 0;
    while i < s.len()
        invariant
            i <= s@.len(),
            unique_principals(s@),
            forall|j: int| 0 <= j < i ==> s@[j].principal != p,
        decreases s@.len() - i,
    {
        if s[i].principal == p {
            proof {
                lemma_entry_at(s@, p, i as int);
            }
            return Some(i);
        }
        i = i + 1;
    }
    None
}

fn ledger_balance(s: &Vec<AccountBalance>, p: u64) -> (r: u64)
    requires
        unique_principals(s@),
    ensures
        r as int == balance_in(s@, p),
{
    match find_entry(s, p) {
        Some(i) => s[i].value,
        None => 0,
    }
}

fn ledger_credit(s: &mut Vec<AccountBalance>, p: u64, amount: u64)
    requires
        unique_principals(old(s)@),
        balance_in(old(s)@, p) + amount <= u64::MAX,
    ensures
        unique_principals(final(s)@),
        balance_in(final(s)@, p) == balance_in(old(s)@, p) + amount,
        forall|q: u64| q != p ==> balance_in(final(s)@, q) == balance_in(old(s)@, q),
{
    match find_entry(s, p) {
        Some(i) => {
            let v = s[i].value;
            s[i] = AccountBalance { principal: p, value: v + amount };
            proof {
                lemma_ledger_update_frame(old(s)@, s@, p, i as int);
            }
        },
        None => {
            s.push(AccountBalance { principal: p, value: amount });
            proof {
                lemma_ledger_push_frame(old(s)@, s@, p);
            }
        },
    }
}

fn ledger_debit(s: &mut Vec<AccountBalance>, p: u64, amount: u64)
    requires
        unique_principals(old(s)@),
        amount <= balance_in(old(s)@, p),
    ensures
        unique_principals(final(s)@),
        balance_in(final(s)@, p) == balance_in(old(s)@, p) - amount,
        forall|q: u64| q != p ==> balance_in(final(s)@, q) == balance_in(old(s)@, q),
{
    match find_entry(s, p) {
        Some(i) => {
            let v = s[i].value;
            s[i] = AccountBalance { principal: p, value: v - amount };
            proof {
                lemma_ledger_update_frame(old(s)@, s@, p, i as int);
            }
        },
        None => {
        },
    }
}

/// After replacing the entry at `i` (keeping its principal `p`), `p`'s
/// balance is the new value and every other balance is unchanged.
proof fn lemma_ledger_update_frame(pre: Seq<AccountBalance>, post: Seq<AccountBalance>, p: u64, i: int)
    requires
        unique_principals(pre),
        0 <= i < pre.len(),
        pre[i].principal == p,
        post == pre.update(i, AccountBalance { principal: p, value: post[i].value }),
    ensures
        unique_principals(post),
        balance_in(post, p) == post[i].value as int,
        forall|q: u64| q != p ==> balance_in(post, q) == balance_in(pre, q),
{
    assert(forall|j: int| 0 <= j < post.len() ==> post[j].principal == pre[j].principal);
    lemma_entry_at(post, p, i);
    assert forall|q: u64| q != p implies balance_in(post, q) == balance_in(pre, q) by {
        if has_entry(pre, q) {
            let k = entry_index(pre, q);
            lemma_entry_at(pre, q, k);
            lemma_entry_at(post, q, k);
        } else {
            if has_entry(post, q) {
                let k = entry_index(post, q);
                assert(pre[k].principal == q);
            }
        }
    }
}

/// After appending a fresh entry for `p`, `p`'s balance is the appended
/// value and every other balance is unchanged.
proof fn lemma_ledger_push_frame(pre: Seq<AccountBalance>, post: Seq<AccountBalance>, p: u64)
    requires
        unique_principals(pre),
        !has_entry(pre, p),
        post == pre.push(AccountBalance { principal: p, value: post[pre.len() as int].value }),
    ensures
        unique_principals(post),
        balance_in(post, p) == post[pre.len() as int].value as int,
        forall|q: u64| q != p ==> balance_in(post, q) == balance_in(pre, q),
{
    assert forall|i: int, j: int| 0 <= i < j < post.len() implies post[i].principal
        != post[j].principal by {
        if j < pre.len() {
            assert(pre[i].principal != pre[j].principal);
        } else {
            assert(post[i] == pre[i]);
        }
    }
    lemma_entry_at(post, p, pre.len() as int);
    assert forall|q: u64| q != p implies balance_in(post, q) == balance_in(pre, q) by {
        if has_entry(pre, q) {
            let k = entry_index(pre, q);
            lemma_entry_at(pre, q, k);
            lemma_entry_at(post, q, k);
        } else {
            if has_entry(post, q) {
                let k = entry_index(post, q);
                if k < pre.len() {
                    assert(pre[k].principal == q);
                }
            }
        }
    }
}

/// The whole record store of the protocol, together with the native-value
/// ledger the host settles transfers against.
#[derive(Debug)]
pub struct Registry {
    /// The treasury singleton, absent until initialized.
    pub treasury: Option<Treasury>,
    /// Native value held at the treasury address.
    pub treasury_balance: u64,
    /// The identity records, one per owner.
    pub agents: Vec<AgentIdentity>,
    /// The reputation records, one per identity, created lazily.
    pub reputations: Vec<AgentReputation>,
    /// The validation records, one per (identity, task hash) pair.
    pub validations: Vec<ValidationRecord>,
    /// The native-value ledger: one entry per principal that holds value.
    pub balances: Vec<AccountBalance>,
}

impl Registry {
    /// The balance of `p` on the native-value ledger.
    pub open spec fn balance_of(self, p: u64) -> int {
        balance_in(self.balances@, p)
    }

    /// No two identity records share an owner.
    pub open spec fn agents_unique(self) -> bool {
        forall|i: int, j: int|
            0 <= i < j < self.agents@.len() ==> self.agents@[i].owner != self.agents@[j].owner
    }

    /// An identity record for `owner` exists.
    pub open spec fn has_agent(self, owner: u64) -> bool {
        exists|i: int| 0 <= i < self.agents@.len() && self.agents@[i].owner == owner
    }

    /// Index of the identity record for `owner`.
    pub open spec fn agent_index(self, owner: u64) -> int {
        choose|i: int| 0 <= i < self.agents@.len() && self.agents@[i].owner == owner
    }

    /// The identity record for `owner`.
    pub open spec fn agent_of(self, owner: u64) -> AgentIdentity
        recommends
            self.has_agent(owner),
    {
        self.agents@[self.agent_index(owner)]
    }

    /// `a` is a derived identity address and an identity record exists
    /// there.
    pub open spec fn identity_exists(self, a: Address) -> bool {
        a matches Address::Agent { owner } && self.has_agent(owner)
    }

    /// The identity record at address `a`.
    pub open spec fn identity_at(self, a: Address) -> AgentIdentity
        recommends
            self.identity_exists(a),
    {
        self.agent_of(a->Agent_owner)
    }

    /// No two reputation records share an identity.
    pub open spec fn reputations_unique(self) -> bool {
        forall|i: int, j: int|
            0 <= i < j < self.reputations@.len() ==> self.reputations@[i].agent_id
                != self.reputations@[j].agent_id
    }

    /// A reputation record for the identity at `a` exists.
    pub open spec fn has_reputation(self, a: Address) -> bool {
        exists|i: int| 0 <= i < self.reputations@.len() && self.reputations@[i].agent_id == a
    }

    /// Index of the reputation record for the identity at `a`.
    pub open spec fn reputation_index(self, a: Address) -> int {
        choose|i: int| 0 <= i < self.reputations@.len() && self.reputations@[i].agent_id == a
    }

    /// The reputation record for the identity at `a`.
    pub open spec fn reputation_of(self, a: Address) -> AgentReputation
        recommends
            self.has_reputation(a),
    {
        self.reputations@[self.reputation_index(a)]
    }

    /// No two validation records share an (identity, task hash) pair.
    pub open spec fn validations_unique(self) -> bool {
        forall|i: int, j: int|
            0 <= i < j < self.validations@.len() ==> !(self.validations@[i].agent_id
                == self.validations@[j].agent_id && self.validations@[i].task_hash
                == self.validations@[j].task_hash)
    }

    /// A validation record for the identity at `a` and task `t` exists.
    pub open spec fn has_validation(self, a: Address, t: TaskHash) -> bool {
        exists|i: int|
            0 <= i < self.validations@.len() && self.validations@[i].agent_id == a
                && self.validations@[i].task_hash == t
    }

    /// Index of the validation record for the identity at `a` and task `t`.
    pub open spec fn validation_index(self, a: Address, t: TaskHash) -> int {
        choose|i: int|
            0 <= i < self.validations@.len() && self.validations@[i].agent_id == a
                && self.validations@[i].task_hash == t
    }

    /// The validation record for the identity at `a` and task `t`.
    pub open spec fn validation_of(self, a: Address, t: TaskHash) -> ValidationRecord
        recommends
            self.has_validation(a, t),
    {
        self.validations@[self.validation_index(a, t)]
    }

    /// Well-formedness of the record stores: records are unique under their
    /// derivation keys, each record is well-formed, and every reputation and
    /// validation references an identity that exists.
    pub open spec fn records_wf(self) -> bool {
        &&& self.agents_unique()
        &&& self.reputations_unique()
        &&& self.validations_unique()
        &&& forall|i: int| 0 <= i < self.agents@.len() ==> (#[trigger] self.agents@[i]).wf()
        &&& forall|i: int|
            0 <= i < self.reputations@.len() ==> ((#[trigger] self.reputations@[i]).wf()
                && self.identity_exists(self.reputations@[i].agent_id))
        &&& forall|i: int|
            0 <= i < self.validations@.len() ==> ((#[trigger] self.validations@[i]).wf()
                && self.identity_exists(self.validations@[i].agent_id))
    }

    /// Well-formedness of the whole store.  Every operation requires it and
    /// preserves it, so it holds of every reachable state.
    pub open spec fn wf(self) -> bool {
        &&& unique_principals(self.balances@)
        &&& self.records_wf()
        &&& (self.treasury is Some ==> self.treasury_balance >= TREASURY_RESERVE)
        &&& (self.treasury is None ==> self.treasury_balance == 0)
    }

    /// Record-store well-formedness depends only on the record stores: it
    /// carries over to any state holding the same records.
    proof fn lemma_records_wf_transfer(pre: Registry, post: Registry)
        requires
            pre.records_wf(),
            post.agents@ == pre.agents@,
            post.reputations@ == pre.reputations@,
            post.validations@ == pre.validations@,
        ensures
            post.records_wf(),
    {
        assert forall|i: int, j: int|
            0 <= i < j < post.agents@.len() implies post.agents@[i].owner
            != post.agents@[j].owner by {
            assert(pre.agents@[i].owner != pre.agents@[j].owner);
        }
        assert forall|i: int, j: int|
            0 <= i < j < post.reputations@.len() implies post.reputations@[i].agent_id
            != post.reputations@[j].agent_id by {
            assert(pre.reputations@[i].agent_id != pre.reputations@[j].agent_id);
        }
        assert forall|i: int, j: int|
            0 <= i < j < post.validations@.len() implies !(post.validations@[i].agent_id
            == post.validations@[j].agent_id && post.validations@[i].task_hash
            == post.validations@[j].task_hash) by {
            assert(!(pre.validations@[i].agent_id == pre.validations@[j].agent_id
                && pre.validations@[i].task_hash == pre.validations@[j].task_hash));
        }
        assert forall|i: int| 0 <= i < post.agents@.len() implies (
        #[trigger] post.agents@[i]).wf() by {
            assert(pre.agents@[i].wf());
        }
        assert forall|i: int|
            0 <= i < post.reputations@.len() implies ((#[trigger] post.reputations@[i]).wf()
            && post.identity_exists(post.reputations@[i].agent_id)) by {
            assert(pre.reputations@[i].wf());
            assert(pre.identity_exists(pre.reputations@[i].agent_id));
            let a = post.reputations@[i].agent_id;
            let owner = a->Agent_owner;
            let k = pre.agent_index(owner);
            assert(0 <= k < pre.agents@.len() && pre.agents@[k].owner == owner);
            assert(post.agents@[k].owner == owner);
            assert(post.has_agent(owner));
        }
        assert forall|i: int|
            0 <= i < post.validations@.len() implies ((#[trigger] post.validations@[i]).wf()
            && post.identity_exists(post.validations@[i].agent_id)) by {
            assert(pre.validations@[i].wf());
            assert(pre.identity_exists(pre.validations@[i].agent_id));
            let a = post.validations@[i].agent_id;
            let owner = a->Agent_owner;
            let k = pre.agent_index(owner);
            assert(0 <= k < pre.agents@.len() && pre.agents@[k].owner == owner);
            assert(post.agents@[k].owner == owner);
            assert(post.has_agent(owner));
        }
    }

    proof fn lemma_agent_at(self, owner: u64, i: int)
        requires
            self.agents_unique(),
            0 <= i < self.agents@.len(),
            self.agents@[i].owner == owner,
        ensures
            self.has_agent(owner),
            self.agent_index(owner) == i,
            self.agent_of(owner) == self.agents@[i],
    {
        assert(self.has_agent(owner));
        let k = self.agent_index(owner);
        if k < i {
            assert(self.agents@[k].owner != self.agents@[i].owner);
        }
        if i < k {
            assert(self.agents@[i].owner != self.agents@[k].owner);
        }
    }

    proof fn lemma_reputation_at(self, a: Address, i: int)
        requires
            self.reputations_unique(),
            0 <= i < self.reputations@.len(),
            self.reputations@[i].agent_id == a,
        ensures
            self.has_reputation(a),
            self.reputation_index(a) == i,
            self.reputation_of(a) == self.reputations@[i],
    {
        assert(self.has_reputation(a));
        let k = self.reputation_index(a);
        if k < i {
            assert(self.reputations@[k].agent_id != self.reputations@[i].agent_id);
        }
        if i < k {
            assert(self.reputations@[i].agent_id != self.reputations@[k].agent_id);
        }
    }

    proof fn lemma_validation_at(self, a: Address, t: TaskHash, i: int)
        requires
            self.validations_unique(),
            0 <= i < self.validations@.len(),
            self.validations@[i].agent_id == a,
            self.validations@[i].task_hash == t,
        ensures
            self.has_validation(a, t),
            self.validation_index(a, t) == i,
            self.validation_of(a, t) == self.validations@[i],
    {
        assert(self.has_validation(a, t));
        let k = self.validation_index(a, t);
        if k < i {
            assert(!(self.validations@[k].agent_id == self.validations@[i].agent_id
                && self.validations@[k].task_hash == self.validations@[i].task_hash));
        }
        if i < k {
            assert(!(self.validations@[i].agent_id == self.validations@[k].agent_id
                && self.validations@[i].task_hash == self.validations@[k].task_hash));
        }
    }

    /// Appending an identity record for a fresh owner keeps the stores
    /// well-formed; every other identity is untouched.
    proof fn lemma_records_wf_agent_push(pre: Registry, post: Registry, rec: AgentIdentity)
        requires
            pre.records_wf(),
            !pre.has_agent(rec.owner),
            rec.wf(),
            post.agents@ == pre.agents@.push(rec),
            post.reputations@ == pre.reputations@,
            post.validations@ == pre.validations@,
        ensures
            post.records_wf(),
            post.has_agent(rec.owner),
            post.agent_index(rec.owner) == pre.agents@.len(),
            post.agent_of(rec.owner) == rec,
            forall|o: u64|
                o != rec.owner ==> (post.has_agent(o) == pre.has_agent(o) && (pre.has_agent(o)
                    ==> post.agent_of(o) == pre.agent_of(o))),
    {
        let n = pre.agents@.len() as int;
        assert forall|i: int, j: int|
            0 <= i < j < post.agents@.len() implies post.agents@[i].owner
            != post.agents@[j].owner by {
            if j < n {
                assert(pre.agents@[i].owner != pre.agents@[j].owner);
            } else {
                assert(post.agents@[i] == pre.agents@[i]);
                if pre.agents@[i].owner == rec.owner {
                    assert(pre.has_agent(rec.owner));
                }
            }
        }
        assert forall|i: int| 0 <= i < post.agents@.len() implies (
        #[trigger] post.agents@[i]).wf() by {
            if i < n {
                assert(pre.agents@[i].wf());
            }
        }
        post.lemma_agent_at(rec.owner, n);
        assert forall|i: int|
            0 <= i < post.reputations@.len() implies ((#[trigger] post.reputations@[i]).wf()
            && post.identity_exists(post.reputations@[i].agent_id)) by {
            assert(pre.reputations@[i].wf());
            assert(pre.identity_exists(pre.reputations@[i].agent_id));
            let owner = post.reputations@[i].agent_id->Agent_owner;
            let k = pre.agent_index(owner);
            assert(0 <= k < pre.agents@.len() && pre.agents@[k].owner == owner);
            assert(post.agents@[k].owner == owner);
            assert(post.has_agent(owner));
        }
        assert forall|i: int|
            0 <= i < post.validations@.len() implies ((#[trigger] post.validations@[i]).wf()
            && post.identity_exists(post.validations@[i].agent_id)) by {
            assert(pre.validations@[i].wf());
            assert(pre.identity_exists(pre.validations@[i].agent_id));
            let owner = post.validations@[i].agent_id->Agent_owner;
            let k = pre.agent_index(owner);
            assert(0 <= k < pre.agents@.len() && pre.agents@[k].owner == owner);
            assert(post.agents@[k].owner == owner);
            assert(post.has_agent(owner));
        }
        assert forall|o: u64|
            o != rec.owner implies (post.has_agent(o) == pre.has_agent(o) && (pre.has_agent(o)
            ==> post.agent_of(o) == pre.agent_of(o))) by {
            if pre.has_agent(o) {
                let k = pre.agent_index(o);
                assert(0 <= k < pre.agents@.len() && pre.agents@[k].owner == o);
                assert(post.agents@[k].owner == o);
                pre.lemma_agent_at(o, k);
                post.lemma_agent_at(o, k);
            }
            if post.has_agent(o) {
                let k = post.agent_index(o);
                assert(0 <= k < post.agents@.len() && post.agents@[k].owner == o);
                if k < n {
                    assert(pre.has_agent(o));
                } else {
                    assert(post.agents@[k] == rec);
                }
            }
        }
    }

    /// Replacing the identity record at `i` while keeping its owner keeps
    /// the stores well-formed; every other identity is untouched.
    proof fn lemma_records_wf_agent_update(pre: Registry, post: Registry, i: int, rec: AgentIdentity)
        requires
            pre.records_wf(),
            0 <= i < pre.agents@.len(),
            rec.owner == pre.agents@[i].owner,
            rec.wf(),
            post.agents@ == pre.agents@.update(i, rec),
            post.reputations@ == pre.reputations@,
            post.validations@ == pre.validations@,
        ensures
            post.records_wf(),
            post.has_agent(rec.owner),
            post.agent_index(rec.owner) == i,
            post.agent_of(rec.owner) == rec,
            forall|o: u64| post.has_agent(o) == pre.has_agent(o),
            forall|o: u64|
                o != rec.owner && pre.has_agent(o) ==> post.agent_of(o) == pre.agent_of(o),
    {
        assert(forall|j: int|
            0 <= j < post.agents@.len() ==> post.agents@[j].owner == pre.agents@[j].owner);
        assert forall|a: int, b: int|
            0 <= a < b < post.agents@.len() implies post.agents@[a].owner
            != post.agents@[b].owner by {
            assert(pre.agents@[a].owner != pre.agents@[b].owner);
        }
        assert forall|j: int| 0 <= j < post.agents@.len() implies (
        #[trigger] post.agents@[j]).wf() by {
            if j != i {
                assert(post.agents@[j] == pre.agents@[j]);
                assert(pre.agents@[j].wf());
            }
        }
        post.lemma_agent_at(rec.owner, i);
        assert forall|j: int|
            0 <= j < post.reputations@.len() implies ((#[trigger] post.reputations@[j]).wf()
            && post.identity_exists(post.reputations@[j].agent_id)) by {
            assert(pre.reputations@[j].wf());
            assert(pre.identity_exists(pre.reputations@[j].agent_id));
            let owner = post.reputations@[j].agent_id->Agent_owner;
            let k = pre.agent_index(owner);
            assert(0 <= k < pre.agents@.len() && pre.agents@[k].owner == owner);
            assert(post.agents@[k].owner == owner);
            assert(post.has_agent(owner));
        }
        assert forall|j: int|
            0 <= j < post.validations@.len() implies ((#[trigger] post.validations@[j]).wf()
            && post.identity_exists(post.validations@[j].agent_id)) by {
            assert(pre.validations@[j].wf());
            assert(pre.identity_exists(pre.validations@[j].agent_id));
            let owner = post.validations@[j].agent_id->Agent_owner;
            let k = pre.agent_index(owner);
            assert(0 <= k < pre.agents@.len() && pre.agents@[k].owner == owner);
            assert(post.agents@[k].owner == owner);
            assert(post.has_agent(owner));
        }
        assert forall|o: u64| post.has_agent(o) == pre.has_agent(o) by {
            if pre.has_agent(o) {
                let k = pre.agent_index(o);
                assert(0 <= k < pre.agents@.len() && pre.agents@[k].owner == o);
                assert(post.agents@[k].owner == o);
                assert(post.has_agent(o));
            }
            if post.has_agent(o) {
                let k = post.agent_index(o);
                assert(0 <= k < post.agents@.len() && post.agents@[k].owner == o);
                assert(pre.agents@[k].owner == o);
                assert(pre.has_agent(o));
            }
        }
        assert forall|o: u64|
            o != rec.owner && pre.has_agent(o) implies post.agent_of(o) == pre.agent_of(o) by {
            let k = pre.agent_index(o);
            pre.lemma_agent_at(o, k);
            assert(post.agents@[k] == pre.agents@[k]);
            post.lemma_agent_at(o, k);
        }
    }

    /// Appending a reputation record for an identity that has none, and
    /// whose identity exists, keeps the stores well-formed; every other
    /// reputation is untouched.
    proof fn lemma_records_wf_rep_push(pre: Registry, post: Registry, rec: AgentReputation)
        requires
            pre.records_wf(),
            !pre.has_reputation(rec.agent_id),
            rec.wf(),
            pre.identity_exists(rec.agent_id),
            post.agents@ == pre.agents@,
            post.reputations@ == pre.reputations@.push(rec),
            post.validations@ == pre.validations@,
        ensures
            post.records_wf(),
            post.has_reputation(rec.agent_id),
            post.reputation_index(rec.agent_id) == pre.reputations@.len(),
            post.reputation_of(rec.agent_id) == rec,
            forall|a: Address|
                a != rec.agent_id ==> (post.has_reputation(a) == pre.has_reputation(a) && (
                pre.has_reputation(a) ==> post.reputation_of(a) == pre.reputation_of(a))),
    {
        let n = pre.reputations@.len() as int;
        Self::lemma_identity_exists_transfer(pre, post);
        assert forall|i: int, j: int|
            0 <= i < j < post.agents@.len() implies post.agents@[i].owner
            != post.agents@[j].owner by {
            assert(pre.agents@[i].owner != pre.agents@[j].owner);
        }
        assert forall|i: int, j: int|
            0 <= i < j < post.reputations@.len() implies post.reputations@[i].agent_id
            != post.reputations@[j].agent_id by {
            if j < n {
                assert(pre.reputations@[i].agent_id != pre.reputations@[j].agent_id);
            } else {
                assert(post.reputations@[i] == pre.reputations@[i]);
                if pre.reputations@[i].agent_id == rec.agent_id {
                    assert(pre.has_reputation(rec.agent_id));
                }
            }
        }
        assert forall|i: int, j: int|
            0 <= i < j < post.validations@.len() implies !(post.validations@[i].agent_id
            == post.validations@[j].agent_id && post.validations@[i].task_hash
            == post.validations@[j].task_hash) by {
            assert(!(pre.validations@[i].agent_id == pre.validations@[j].agent_id
                && pre.validations@[i].task_hash == pre.validations@[j].task_hash));
        }
        assert forall|i: int| 0 <= i < post.agents@.len() implies (
        #[trigger] post.agents@[i]).wf() by {
            assert(pre.agents@[i].wf());
        }
        assert forall|i: int|
            0 <= i < post.reputations@.len() implies ((#[trigger] post.reputations@[i]).wf()
            && post.identity_exists(post.reputations@[i].agent_id)) by {
            if i < n {
                assert(pre.reputations@[i].wf());
                assert(pre.identity_exists(pre.reputations@[i].agent_id));
            } else {
                assert(post.reputations@[i] == rec);
            }
        }
        assert forall|i: int|
            0 <= i < post.validations@.len() implies ((#[trigger] post.validations@[i]).wf()
            && post.identity_exists(post.validations@[i].agent_id)) by {
            assert(pre.validations@[i].wf());
            assert(pre.identity_exists(pre.validations@[i].agent_id));
        }
        post.lemma_reputation_at(rec.agent_id, n);
        assert forall|a: Address|
            a != rec.agent_id implies (post.has_reputation(a) == pre.has_reputation(a) && (
            pre.has_reputation(a) ==> post.reputation_of(a) == pre.reputation_of(a))) by {
            if pre.has_reputation(a) {
                let k = pre.reputation_index(a);
                pre.lemma_reputation_at(a, k);
                assert(post.reputations@[k] == pre.reputations@[k]);
                post.lemma_reputation_at(a, k);
            }
            if post.has_reputation(a) {
                let k = post.reputation_index(a);
                assert(0 <= k < post.reputations@.len() && post.reputations@[k].agent_id == a);
                if k < n {
                    assert(pre.has_reputation(a));
                } else {
                    assert(post.reputations@[k] == rec);
                }
            }
        }
    }

    /// Replacing the reputation record at `i` while keeping its identity
    /// keeps the stores well-formed; every other reputation is untouched.
    proof fn lemma_records_wf_rep_update(pre: Registry, post: Registry, i: int, rec: AgentReputation)
        requires
            pre.records_wf(),
            0 <= i < pre.reputations@.len(),
            rec.agent_id == pre.reputations@[i].agent_id,
            rec.wf(),
            post.agents@ == pre.agents@,
            post.reputations@ == pre.reputations@.update(i, rec),
            post.validations@ == pre.validations@,
        ensures
            post.records_wf(),
            post.has_reputation(rec.agent_id),
            post.reputation_index(rec.agent_id) == i,
            post.reputation_of(rec.agent_id) == rec,
            forall|a: Address| post.has_reputation(a) == pre.has_reputation(a),
            forall|a: Address|
                a != rec.agent_id && pre.has_reputation(a) ==> post.reputation_of(a)
                    == pre.reputation_of(a),
    {
        Self::lemma_identity_exists_transfer(pre, post);
        assert(forall|j: int|
            0 <= j < post.reputations@.len() ==> post.reputations@[j].agent_id
                == pre.reputations@[j].agent_id);
        assert forall|a: int, b: int|
            0 <= a < b < post.agents@.len() implies post.agents@[a].owner
            != post.agents@[b].owner by {
            assert(pre.agents@[a].owner != pre.agents@[b].owner);
        }
        assert forall|a: int, b: int|
            0 <= a < b < post.reputations@.len() implies post.reputations@[a].agent_id
            != post.reputations@[b].agent_id by {
            assert(pre.reputations@[a].agent_id != pre.reputations@[b].agent_id);
        }
        assert forall|a: int, b: int|
            0 <= a < b < post.validations@.len() implies !(post.validations@[a].agent_id
            == post.validations@[b].agent_id && post.validations@[a].task_hash
            == post.validations@[b].task_hash) by {
            assert(!(pre.validations@[a].agent_id == pre.validations@[b].agent_id
                && pre.validations@[a].task_hash == pre.validations@[b].task_hash));
        }
        assert forall|j: int| 0 <= j < post.agents@.len() implies (
        #[trigger] post.agents@[j]).wf() by {
            assert(pre.agents@[j].wf());
        }
        assert forall|j: int|
            0 <= j < post.reputations@.len() implies ((#[trigger] post.reputations@[j]).wf()
            && post.identity_exists(post.reputations@[j].agent_id)) by {
            if j != i {
                assert(post.reputations@[j] == pre.reputations@[j]);
            }
            assert(pre.reputations@[j].wf() || post.reputations@[j] == rec);
            assert(pre.identity_exists(pre.reputations@[j].agent_id));
        }
        assert forall|j: int|
            0 <= j < post.validations@.len() implies ((#[trigger] post.validations@[j]).wf()
            && post.identity_exists(post.validations@[j].agent_id)) by {
            assert(pre.validations@[j].wf());
            assert(pre.identity_exists(pre.validations@[j].agent_id));
        }
        post.lemma_reputation_at(rec.agent_id, i);
        assert forall|a: Address| post.has_reputation(a) == pre.has_reputation(a) by {
            if pre.has_reputation(a) {
                let k = pre.reputation_index(a);
                assert(0 <= k < pre.reputations@.len() && pre.reputations@[k].agent_id == a);
                assert(post.reputations@[k].agent_id == a);
                assert(post.has_reputation(a));
            }
            if post.has_reputation(a) {
                let k = post.reputation_index(a);
                assert(0 <= k < post.reputations@.len() && post.reputations@[k].agent_id == a);
                assert(pre.reputations@[k].agent_id == a);
                assert(pre.has_reputation(a));
            }
        }
        assert forall|a: Address|
            a != rec.agent_id && pre.has_reputation(a) implies post.reputation_of(a)
            == pre.reputation_of(a) by {
            let k = pre.reputation_index(a);
            pre.lemma_reputation_at(a, k);
            assert(post.reputations@[k] == pre.reputations@[k]);
            post.lemma_reputation_at(a, k);
        }
    }

    /// Appending a validation record for a fresh (identity, task) pair,
    /// whose identity exists, keeps the stores well-formed; every other
    /// validation is untouched.
    proof fn lemma_records_wf_val_push(pre: Registry, post: Registry, rec: ValidationRecord)
        requires
            pre.records_wf(),
            !pre.has_validation(rec.agent_id, rec.task_hash),
            rec.wf(),
            pre.identity_exists(rec.agent_id),
            post.agents@ == pre.agents@,
            post.reputations@ == pre.reputations@,
            post.validations@ == pre.validations@.push(rec),
        ensures
            post.records_wf(),
            post.has_validation(rec.agent_id, rec.task_hash),
            post.validation_index(rec.agent_id, rec.task_hash) == pre.validations@.len(),
            post.validation_of(rec.agent_id, rec.task_hash) == rec,
            forall|a: Address, t: TaskHash|
                !(a == rec.agent_id && t == rec.task_hash) ==> (post.has_validation(a, t)
                    == pre.has_validation(a, t) && (pre.has_validation(a, t)
                    ==> post.validation_of(a, t) == pre.validation_of(a, t))),
    {
        let n = pre.validations@.len() as int;
        Self::lemma_identity_exists_transfer(pre, post);
        assert forall|i: int, j: int|
            0 <= i < j < post.agents@.len() implies post.agents@[i].owner
            != post.agents@[j].owner by {
            assert(pre.agents@[i].owner != pre.agents@[j].owner);
        }
        assert forall|i: int, j: int|
            0 <= i < j < post.reputations@.len() implies post.reputations@[i].agent_id
            != post.reputations@[j].agent_id by {
            assert(pre.reputations@[i].agent_id != pre.reputations@[j].agent_id);
        }
        assert forall|i: int, j: int|
            0 <= i < j < post.validations@.len() implies !(post.validations@[i].agent_id
            == post.validations@[j].agent_id && post.validations@[i].task_hash
            == post.validations@[j].task_hash) by {
            if j < n {
                assert(!(pre.validations@[i].agent_id == pre.validations@[j].agent_id
                    && pre.validations@[i].task_hash == pre.validations@[j].task_hash));
            } else {
                assert(post.validations@[i] == pre.validations@[i]);
                if pre.validations@[i].agent_id == rec.agent_id && pre.validations@[i].task_hash
                    == rec.task_hash {
                    assert(pre.has_validation(rec.agent_id, rec.task_hash));
                }
            }
        }
        assert forall|i: int| 0 <= i < post.agents@.len() implies (
        #[trigger] post.agents@[i]).wf() by {
            assert(pre.agents@[i].wf());
        }
        assert forall|i: int|
            0 <= i < post.reputations@.len() implies ((#[trigger] post.reputations@[i]).wf()
            && post.identity_exists(post.reputations@[i].agent_id)) by {
            assert(pre.reputations@[i].wf());
            assert(pre.identity_exists(pre.reputations@[i].agent_id));
        }
        assert forall|i: int|
            0 <= i < post.validations@.len() implies ((#[trigger] post.validations@[i]).wf()
            && post.identity_exists(post.validations@[i].agent_id)) by {
            if i < n {
                assert(pre.validations@[i].wf());
                assert(pre.identity_exists(pre.validations@[i].agent_id));
            } else {
                assert(post.validations@[i] == rec);
            }
        }
        post.lemma_validation_at(rec.agent_id, rec.task_hash, n);
        assert forall|a: Address, t: TaskHash|
            !(a == rec.agent_id && t == rec.task_hash) implies (post.has_validation(a, t)
            == pre.has_validation(a, t) && (pre.has_validation(a, t) ==> post.validation_of(
            a,
            t,
        ) == pre.validation_of(a, t))) by {
            if pre.has_validation(a, t) {
                let k = pre.validation_index(a, t);
                pre.lemma_validation_at(a, t, k);
                assert(post.validations@[k] == pre.validations@[k]);
                post.lemma_validation_at(a, t, k);
            }
            if post.has_validation(a, t) {
                let k = post.validation_index(a, t);
                assert(0 <= k < post.validations@.len() && post.validations@[k].agent_id == a
                    && post.validations@[k].task_hash == t);
                if k < n {
                    assert(pre.has_validation(a, t));
                } else {
                    assert(post.validations@[k] == rec);
                }
            }
        }
    }

    /// Identity existence depends only on the identity store: it carries
    /// over to any state holding the same identity records.
    proof fn lemma_identity_exists_transfer(pre: Registry, post: Registry)
        requires
            post.agents@ == pre.agents@,
        ensures
            forall|a: Address| #[trigger]
                post.identity_exists(a) == pre.identity_exists(a),
    {
        assert forall|a: Address| #[trigger]
            post.identity_exists(a) == pre.identity_exists(a) by {
            if a is Agent {
                let owner = a->Agent_owner;
                if pre.has_agent(owner) {
                    let k = pre.agent_index(owner);
                    assert(0 <= k < pre.agents@.len() && pre.agents@[k].owner == owner);
                    assert(post.agents@[k].owner == owner);
                    assert(post.has_agent(owner));
                }
                if post.has_agent(owner) {
                    let k = post.agent_index(owner);
                    assert(0 <= k < post.agents@.len() && post.agents@[k].owner == owner);
                    assert(pre.agents@[k].owner == owner);
                    assert(pre.has_agent(owner));
                }
            }
        }
    }

    fn find_agent(&self, owner: u64) -> (r: Option<usize>)
        requires
            self.agents_unique(),
        ensures
            match r {
                Some(i) => {
                    &&& i < self.agents@.len()
                    &&& self.agents@[i as int].owner == owner
                    &&& self.has_agent(owner)
                    &&& self.agent_index(owner) == i
                },
                None => !self.has_agent(owner),
            },
    {
        let mut i: usize = 0;
        while i < self.agents.len()
            invariant
                i <= self.agents@.len(),
                self.agents_unique(),
                forall|j: int| 0 <= j < i ==> self.agents@[j].owner != owner,
            decreases self.agents@.len() - i,
        {
            if self.agents[i].owner == owner {
                proof {
                    self.lemma_agent_at(owner, i as int);
                }
                return Some(i);
            }
            i = i + 1;
        }
        None
    }

    fn find_reputation(&self, a: Address) -> (r: Option<usize>)
        requires
            self.reputations_unique(),
        ensures
            match r {
                Some(i) => {
                    &&& i < self.reputations@.len()
                    &&& self.reputations@[i as int].agent_id == a
                    &&& self.has_reputation(a)
                    &&& self.reputation_index(a) == i
                },
                None => !self.has_reputation(a),
            },
    {
        let mut i: usize = 0;
        while i < self.reputations.len()
            invariant
                i <= self.reputations@.len(),
                self.reputations_unique(),
                forall|j: int| 0 <= j < i ==> self.reputations@[j].agent_id != a,
            decreases self.reputations@.len() - i,
        {
            if self.reputations[i].agent_id == a {
                proof {
                    self.lemma_reputation_at(a, i as int);
                }
                return Some(i);
            }
            i = i + 1;
        }
        None
    }

    fn find_validation(&self, a: Address, t: TaskHash) -> (r: Option<usize>)
        requires
            self.validations_unique(),
        ensures
            match r {
                Some(i) => {
                    &&& i < self.validations@.len()
                    &&& self.validations@[i as int].agent_id == a
                    &&& self.validations@[i as int].task_hash == t
                    &&& self.has_validation(a, t)
                    &&& self.validation_index(a, t) == i
                },
                None => !self.has_validation(a, t),
            },
    {
        let mut i: usize = 0;
        while i < self.validations.len()
            invariant
                i <= self.validations@.len(),
                self.validations_unique(),
                forall|j: int|
                    0 <= j < i ==> !(self.validations@[j].agent_id == a
                        && self.validations@[j].task_hash == t),
            decreases self.validations@.len() - i,
        {
            if self.validations[i].agent_id == a && self.validations[i].task_hash == t {
                proof {
                    self.lemma_validation_at(a, t, i as int);
                }
                return Some(i);
            }
            i = i + 1;
        }
        None
    }

    /// An empty store: no treasury, no records, no value on the ledger.
    pub fn new() -> (r: Registry)
        ensures
            r.wf(),
            r.treasury is None,
            r.treasury_balance == 0,
            r.agents@.len() == 0,
            r.reputations@.len() == 0,
            r.validations@.len() == 0,
            forall|p: u64| r.balance_of(p) == 0,
    {
        Registry {
            treasury: None,
            treasury_balance: 0,
            agents: Vec::new(),
            reputations: Vec::new(),
            validations: Vec::new(),
            balances: Vec::new(),
        }
    }

    /// Credits `principal` with value arriving from outside the protocol.
    /// This models the host ledger funding an account; no record is touched.
    pub fn deposit(&mut self, principal: u64, amount: u64)
        requires
            old(self).wf(),
            old(self).balance_of(principal) + amount <= u64::MAX,
        ensures
            final(self).wf(),
            final(self).balance_of(principal) == old(self).balance_of(principal) + amount,
            forall|q: u64| q != principal ==> final(self).balance_of(q) == old(self).balance_of(q),
            final(self).treasury == old(self).treasury,
            final(self).treasury_balance == old(self).treasury_balance,
            final(self).agents@ == old(self).agents@,
            final(self).reputations@ == old(self).reputations@,
            final(self).validations@ == old(self).validations@,
    {
        ledger_credit(&mut self.balances, principal, amount);
        proof {
            Self::lemma_records_wf_transfer(*old(self), *self);
        }
    }

    /// Reads the balance of `principal` on the native-value ledger.
    pub fn balance(&self, principal: u64) -> (r: u64)
        requires
            self.wf(),
        ensures
            r as int == self.balance_of(principal),
    {
        ledger_balance(&self.balances, principal)
    }

    /// Creates the treasury singleton.  The caller becomes the protocol
    /// authority, with `total_collected` starting at zero, and funds the
    /// record's reserve.  Fails with `AlreadyInitialized` when the singleton
    /// address already holds a record, leaving everything unchanged.
    pub fn initialize_treasury(&mut self, ctx: InitializeTreasury) -> (r: Result<(), SaidError>)
        requires
            old(self).wf(),
        ensures
            final(self).wf(),
            old(self).treasury is Some ==> (r is Err && r->Err_0 == SaidError::AlreadyInitialized
                && *final(self) == *old(self)),
            (old(self).treasury is None && old(self).balance_of(ctx.authority) < TREASURY_RESERVE)
                ==> (r is Err && r->Err_0 == SaidError::InsufficientPayerBalance && *final(self)
                == *old(self)),
            r is Ok <==> (old(self).treasury is None && old(self).balance_of(ctx.authority)
                >= TREASURY_RESERVE),
            r is Ok ==> ({
                &&& final(self).treasury matches Some(t) && t.authority == ctx.authority
                    && t.total_collected == 0 && t.bump == crate::address::DISAMBIGUATOR
                &&& final(self).treasury_balance == TREASURY_RESERVE
                &&& final(self).balance_of(ctx.authority) == old(self).balance_of(ctx.authority)
                    - TREASURY_RESERVE
                &&& forall|q: u64|
                    q != ctx.authority ==> final(self).balance_of(q) == old(self).balance_of(q)
                &&& final(self).agents@ == old(self).agents@
                &&& final(self).reputations@ == old(self).reputations@
                &&& final(self).validations@ == old(self).validations@
            }),
    {
        if self.treasury.is_some() {
            return Err(SaidError::AlreadyInitialized);
        }
        let funds = ledger_balance(&self.balances, ctx.authority);
        if funds < TREASURY_RESERVE {
            return Err(SaidError::InsufficientPayerBalance);
        }
        ledger_debit(&mut self.balances, ctx.authority, TREASURY_RESERVE);
        let (_, bump) = derive_treasury_address();
        self.treasury = Some(Treasury { authority: ctx.authority, total_collected: 0, bump });
        self.treasury_balance = TREASURY_RESERVE;
        proof {
            Self::lemma_records_wf_transfer(*old(self), *self);
        }
        Ok(())
    }

    /// Fee collection, the treasury ledger's internal operation: moves
    /// `amount` from `payer` to the treasury atomically and counts it in
    /// `total_collected`.  Invoked only by the registration path, which has
    /// already checked the payer's balance, the one failure the external
    /// value-transfer collaborator can raise.
    fn collect(&mut self, payer: u64, amount: u64)
        requires
            old(self).wf(),
            old(self).treasury is Some,
            old(self).balance_of(payer) >= amount,
            old(self).treasury->Some_0.total_collected + amount <= u64::MAX,
            old(self).treasury_balance + amount <= u64::MAX,
        ensures
            final(self).wf(),
            final(self).treasury matches Some(t) && t.authority == old(
                self,
            ).treasury->Some_0.authority && t.total_collected == old(
                self,
            ).treasury->Some_0.total_collected + amount && t.bump == old(self).treasury->Some_0.bump,
            final(self).treasury_balance == old(self).treasury_balance + amount,
            final(self).balance_of(payer) == old(self).balance_of(payer) - amount,
            forall|q: u64| q != payer ==> final(self).balance_of(q) == old(self).balance_of(q),
            final(self).agents@ == old(self).agents@,
            final(self).reputations@ == old(self).reputations@,
            final(self).validations@ == old(self).validations@,
    {
        ledger_debit(&mut self.balances, payer, amount);
        self.treasury_balance = self.treasury_balance + amount;
        let t = self.treasury.unwrap();
        self.treasury = Some(
            Treasury {
                authority: t.authority,
                total_collected: t.total_collected + amount,
                bump: t.bump,
            },
        );
        proof {
            Self::lemma_records_wf_transfer(*old(self), *self);
        }
    }

    /// Registers a new agent identity for `ctx.owner`, who pays the
    /// registration fee into the treasury.  A record already standing at the
    /// derived identity address rejects the registration with
    /// `DuplicateIdentity` before any fee moves.
    pub fn register_agent(&mut self, ctx: RegisterAgent, metadata_uri: String, now: i64) -> (r:
        Result<AgentRegistered, SaidError>)
        requires
            old(self).wf(),
            old(self).treasury is Some,
            metadata_uri@.len() <= MAX_METADATA_LEN,
            old(self).treasury->Some_0.total_collected + REGISTRATION_FEE <= u64::MAX,
            old(self).treasury_balance + REGISTRATION_FEE <= u64::MAX,
        ensures
            final(self).wf(),
            old(self).has_agent(ctx.owner) ==> (r is Err && r->Err_0
                == SaidError::DuplicateIdentity && *final(self) == *old(self)),
            (!old(self).has_agent(ctx.owner) && old(self).balance_of(ctx.owner)
                < REGISTRATION_FEE) ==> (r is Err && r->Err_0 == SaidError::InsufficientPayerBalance
                && *final(self) == *old(self)),
            r is Ok <==> (!old(self).has_agent(ctx.owner) && old(self).balance_of(ctx.owner)
                >= REGISTRATION_FEE),
            r is Ok ==> ({
                &&& final(self).has_agent(ctx.owner)
                &&& final(self).agent_of(ctx.owner) == (AgentIdentity {
                    owner: ctx.owner,
                    metadata_uri,
                    created_at: now,
                    bump: crate::address::DISAMBIGUATOR,
                })
                &&& final(self).agents@ == old(self).agents@.push(final(self).agent_of(ctx.owner))
                &&& forall|o: u64|
                    o != ctx.owner ==> (final(self).has_agent(o) == old(self).has_agent(o) && (old(self).has_agent(o) ==> final(self).agent_of(o) == old(self).agent_of(o)))
                &&& final(self).treasury matches Some(t) && t.authority == old(self).treasury->Some_0.authority && t.total_collected == old(self).treasury->Some_0.total_collected + REGISTRATION_FEE && t.bump == old(self).treasury->Some_0.bump
                &&& final(self).treasury_balance == old(self).treasury_balance + REGISTRATION_FEE
                &&& final(self).balance_of(ctx.owner) == old(self).balance_of(ctx.owner)
                    - REGISTRATION_FEE
                &&& forall|q: u64|
                    q != ctx.owner ==> final(self).balance_of(q) == old(self).balance_of(q)
                &&& final(self).reputations@ == old(self).reputations@
                &&& final(self).validations@ == old(self).validations@
                &&& r->Ok_0.agent_id == (Address::Agent { owner: ctx.owner })
                &&& r->Ok_0.owner == ctx.owner
                &&& r->Ok_0.metadata_uri@ == metadata_uri@
                &&& r->Ok_0.fee_paid == REGISTRATION_FEE
            }),
    {
        match self.find_agent(ctx.owner) {
            Some(_) => {
                return Err(SaidError::DuplicateIdentity);
            },
            None => {},
        }
        let funds = ledger_balance(&self.balances, ctx.owner);
        if funds < REGISTRATION_FEE {
            return Err(SaidError::InsufficientPayerBalance);
        }
        self.collect(ctx.owner, REGISTRATION_FEE);
        let (agent_id, bump) = derive_agent_address(ctx.owner);
        let record = AgentIdentity {
            owner: ctx.owner,
            metadata_uri: metadata_uri.clone(),
            created_at: now,
            bump,
        };
        let ghost grec = record;
        self.agents.push(record);
        proof {
            Self::lemma_records_wf_agent_push(*old(self), *self, grec);
        }
        Ok(AgentRegistered { agent_id, owner: ctx.owner, metadata_uri, fee_paid: REGISTRATION_FEE })
    }

    /// Withdraws `amount` from the treasury to the stored authority.  Only
    /// the authority may withdraw, and the treasury must retain its reserve;
    /// a refused withdrawal leaves every balance unchanged.
    /// `total_collected` is untouched either way: it is a lifetime metric of
    /// fees collected, not a balance.
    pub fn withdraw_fees(&mut self, ctx: WithdrawFees, amount: u64) -> (r: Result<
        FeesWithdrawn,
        SaidError,
    >)
        requires
            old(self).wf(),
            old(self).treasury is Some,
            old(self).balance_of(ctx.authority) + amount <= u64::MAX,
        ensures
            final(self).wf(),
            ctx.authority != old(self).treasury->Some_0.authority ==> (r is Err && r->Err_0
                == SaidError::Unauthorized && *final(self) == *old(self)),
            (ctx.authority == old(self).treasury->Some_0.authority && old(self).treasury_balance
                - amount < TREASURY_RESERVE) ==> (r is Err && r->Err_0
                == SaidError::InsufficientTreasuryBalance && *final(self) == *old(self)),
            r is Ok <==> (ctx.authority == old(self).treasury->Some_0.authority && old(self).treasury_balance - amount >= TREASURY_RESERVE),
            r is Ok ==> ({
                &&& final(self).treasury == old(self).treasury
                &&& final(self).treasury_balance == old(self).treasury_balance - amount
                &&& final(self).balance_of(ctx.authority) == old(self).balance_of(ctx.authority)
                    + amount
                &&& forall|q: u64|
                    q != ctx.authority ==> final(self).balance_of(q) == old(self).balance_of(q)
                &&& final(self).agents@ == old(self).agents@
                &&& final(self).reputations@ == old(self).reputations@
                &&& final(self).validations@ == old(self).validations@
                &&& r->Ok_0 == (FeesWithdrawn { authority: ctx.authority, amount })
            }),
    {
        let t = self.treasury.unwrap();
        if ctx.authority != t.authority {
            return Err(SaidError::Unauthorized);
        }
        if amount > self.treasury_balance || self.treasury_balance - amount < TREASURY_RESERVE {
            return Err(SaidError::InsufficientTreasuryBalance);
        }
        self.treasury_balance = self.treasury_balance - amount;
        ledger_credit(&mut self.balances, ctx.authority, amount);
        proof {
            Self::lemma_records_wf_transfer(*old(self), *self);
        }
        Ok(FeesWithdrawn { authority: ctx.authority, amount })
    }

    /// Replaces the metadata reference of the identity at
    /// `ctx.agent_identity`.  Only the stored owner may update; any other
    /// caller is refused with `Unauthorized` and the metadata stands.
    pub fn update_agent(&mut self, ctx: UpdateAgent, new_metadata_uri: String) -> (r: Result<
        AgentUpdated,
        SaidError,
    >)
        requires
            old(self).wf(),
            new_metadata_uri@.len() <= MAX_METADATA_LEN,
        ensures
            final(self).wf(),
            !old(self).identity_exists(ctx.agent_identity) ==> (r is Err && r->Err_0
                == SaidError::UnknownIdentity && *final(self) == *old(self)),
            (old(self).identity_exists(ctx.agent_identity) && old(self).identity_at(
                ctx.agent_identity,
            ).owner != ctx.owner) ==> (r is Err && r->Err_0 == SaidError::Unauthorized && *final(self) == *old(self)),
            r is Ok <==> (old(self).identity_exists(ctx.agent_identity) && old(self).identity_at(
                ctx.agent_identity,
            ).owner == ctx.owner),
            r is Ok ==> ({
                &&& final(self).identity_exists(ctx.agent_identity)
                &&& final(self).identity_at(ctx.agent_identity) == (AgentIdentity {
                    owner: old(self).identity_at(ctx.agent_identity).owner,
                    metadata_uri: new_metadata_uri,
                    created_at: old(self).identity_at(ctx.agent_identity).created_at,
                    bump: old(self).identity_at(ctx.agent_identity).bump,
                })
                &&& final(self).agents@.len() == old(self).agents@.len()
                &&& forall|o: u64| final(self).has_agent(o) == old(self).has_agent(o)
                &&& forall|o: u64|
                    o != ctx.owner && old(self).has_agent(o) ==> final(self).agent_of(o) == old(self).agent_of(o)
                &&& final(self).reputations@ == old(self).reputations@
                &&& final(self).validations@ == old(self).validations@
                &&& final(self).treasury == old(self).treasury
                &&& final(self).treasury_balance == old(self).treasury_balance
                &&& final(self).balances@ == old(self).balances@
                &&& r->Ok_0.agent_id == ctx.agent_identity
                &&& r->Ok_0.new_metadata_uri@ == new_metadata_uri@
            }),
    {
        let owner = match ctx.agent_identity {
            Address::Agent { owner } => owner,
            _ => {
                return Err(SaidError::UnknownIdentity);
            },
        };
        let i = match self.find_agent(owner) {
            Some(i) => i,
            None => {
                return Err(SaidError::UnknownIdentity);
            },
        };
        if self.agents[i].owner != ctx.owner {
            return Err(SaidError::Unauthorized);
        }
        let created_at = self.agents[i].created_at;
        let bump = self.agents[i].bump;
        let record = AgentIdentity {
            owner: ctx.owner,
            metadata_uri: new_metadata_uri.clone(),
            created_at,
            bump,
        };
        let ghost grec = record;
        self.agents[i] = record;
        proof {
            Self::lemma_records_wf_agent_update(*old(self), *self, i as int, grec);
        }
        Ok(AgentUpdated { agent_id: ctx.agent_identity, new_metadata_uri })
    }

    /// Records one piece of feedback for the identity at
    /// `ctx.agent_identity`, creating its reputation record on first
    /// feedback.  Any principal may review; the identity must exist.  The
    /// counters grow monotonically and the score is recomputed as
    /// `floor(positive_feedback * 10000 / total_interactions)`.
    pub fn submit_feedback(
        &mut self,
        ctx: SubmitFeedback,
        positive: bool,
        context: String,
        now: i64,
    ) -> (r: Result<FeedbackSubmitted, SaidError>)
        requires
            old(self).wf(),
            old(self).has_reputation(ctx.agent_identity) ==> old(self).reputation_of(
                ctx.agent_identity,
            ).total_interactions < u64::MAX,
        ensures
            final(self).wf(),
            !old(self).identity_exists(ctx.agent_identity) ==> (r is Err && r->Err_0
                == SaidError::UnknownIdentity && *final(self) == *old(self)),
            r is Ok <==> old(self).identity_exists(ctx.agent_identity),
            r is Ok ==> ({
                &&& final(self).has_reputation(ctx.agent_identity)
                &&& final(self).reputation_of(ctx.agent_identity) == reputation_after(
                    *old(self),
                    ctx.agent_identity,
                    positive,
                    now,
                )
                &&& final(self).reputations@.len() == old(self).reputations@.len() + (if old(self).has_reputation(ctx.agent_identity) {
                    0int
                } else {
                    1int
                })
                &&& forall|a: Address|
                    a != ctx.agent_identity ==> (final(self).has_reputation(a) == old(self).has_reputation(a) && (old(self).has_reputation(a) ==> final(self).reputation_of(a) == old(self).reputation_of(a)))
                &&& final(self).agents@ == old(self).agents@
                &&& final(self).validations@ == old(self).validations@
                &&& final(self).treasury == old(self).treasury
                &&& final(self).treasury_balance == old(self).treasury_balance
                &&& final(self).balances@ == old(self).balances@
                &&& r->Ok_0.agent_id == ctx.agent_identity
                &&& r->Ok_0.from == ctx.reviewer
                &&& r->Ok_0.positive == positive
                &&& r->Ok_0.context@ == context@
                &&& r->Ok_0.new_score == reputation_after(
                    *old(self),
                    ctx.agent_identity,
                    positive,
                    now,
                ).reputation_score
            }),
    {
        match ctx.agent_identity {
            Address::Agent { owner } => {
                match self.find_agent(owner) {
                    Some(_) => {},
                    None => {
                        return Err(SaidError::UnknownIdentity);
                    },
                }
            },
            _ => {
                return Err(SaidError::UnknownIdentity);
            },
        }
        let (_, rep_bump) = derive_reputation_address(&ctx.agent_identity);
        match self.find_reputation(ctx.agent_identity) {
            Some(i) => {
                let prev = self.reputations[i];
                proof {
                    assert(old(self).reputations@[i as int].wf());
                }
                let total = prev.total_interactions + 1;
                let pos = if positive {
                    prev.positive_feedback + 1
                } else {
                    prev.positive_feedback
                };
                let neg = if positive {
                    prev.negative_feedback
                } else {
                    prev.negative_feedback + 1
                };
                let score = compute_score(pos, total);
                let record = AgentReputation {
                    agent_id: ctx.agent_identity,
                    total_interactions: total,
                    positive_feedback: pos,
                    negative_feedback: neg,
                    reputation_score: score,
                    last_updated: now,
                    bump: prev.bump,
                };
                self.reputations[i] = record;
                proof {
                    Self::lemma_records_wf_rep_update(*old(self), *self, i as int, record);
                }
                Ok(
                    FeedbackSubmitted {
                        agent_id: ctx.agent_identity,
                        from: ctx.reviewer,
                        positive,
                        context,
                        new_score: score,
                    },
                )
            },
            None => {
                let pos: u64 = if positive {
                    1
                } else {
                    0
                };
                let neg: u64 = if positive {
                    0
                } else {
                    1
                };
                let score = compute_score(pos, 1);
                let record = AgentReputation {
                    agent_id: ctx.agent_identity,
                    total_interactions: 1,
                    positive_feedback: pos,
                    negative_feedback: neg,
                    reputation_score: score,
                    last_updated: now,
                    bump: rep_bump,
                };
                self.reputations.push(record);
                proof {
                    Self::lemma_records_wf_rep_push(*old(self), *self, record);
                }
                Ok(
                    FeedbackSubmitted {
                        agent_id: ctx.agent_identity,
                        from: ctx.reviewer,
                        positive,
                        context,
                        new_score: score,
                    },
                )
            },
        }
    }

    /// Records a third-party attestation for the identity at
    /// `ctx.agent_identity` and task `task_hash`.  Any principal may attest;
    /// the identity must exist.  A record already standing at the derived
    /// validation address rejects the attestation with
    /// `DuplicateValidation`, whatever its verdict, evidence or validator:
    /// a task's first recorded verdict is final.
    pub fn validate_work(
        &mut self,
        ctx: ValidateWork,
        task_hash: TaskHash,
        passed: bool,
        evidence_uri: String,
        now: i64,
    ) -> (r: Result<WorkValidated, SaidError>)
        requires
            old(self).wf(),
            evidence_uri@.len() <= MAX_METADATA_LEN,
        ensures
            final(self).wf(),
            !old(self).identity_exists(ctx.agent_identity) ==> (r is Err && r->Err_0
                == SaidError::UnknownIdentity && *final(self) == *old(self)),
            (old(self).identity_exists(ctx.agent_identity) && old(self).has_validation(
                ctx.agent_identity,
                task_hash,
            )) ==> (r is Err && r->Err_0 == SaidError::DuplicateValidation && *final(self) == *old(self)),
            r is Ok <==> (old(self).identity_exists(ctx.agent_identity) && !old(self).has_validation(ctx.agent_identity, task_hash)),
            r is Ok ==> ({
                &&& final(self).has_validation(ctx.agent_identity, task_hash)
                &&& final(self).validation_of(ctx.agent_identity, task_hash)
                    == (ValidationRecord {
                    agent_id: ctx.agent_identity,
                    validator: ctx.validator,
                    task_hash,
                    passed,
                    evidence_uri,
                    timestamp: now,
                    bump: crate::address::DISAMBIGUATOR,
                })
                &&& final(self).validations@ == old(self).validations@.push(
                    final(self).validation_of(ctx.agent_identity, task_hash),
                )
                &&& forall|a: Address, t: TaskHash|
                    !(a == ctx.agent_identity && t == task_hash) ==> (final(self).has_validation(
                        a,
                        t,
                    ) == old(self).has_validation(a, t) && (old(self).has_validation(a, t)
                        ==> final(self).validation_of(a, t) == old(self).validation_of(a, t)))
                &&& final(self).agents@ == old(self).agents@
                &&& final(self).reputations@ == old(self).reputations@
                &&& final(self).treasury == old(self).treasury
                &&& final(self).treasury_balance == old(self).treasury_balance
                &&& final(self).balances@ == old(self).balances@
                &&& r->Ok_0.agent_id == ctx.agent_identity
                &&& r->Ok_0.validator == ctx.validator
                &&& r->Ok_0.task_hash == task_hash
                &&& r->Ok_0.passed == passed
                &&& r->Ok_0.evidence_uri@ == evidence_uri@
            }),
    {
        match ctx.agent_identity {
            Address::Agent { owner } => {
                match self.find_agent(owner) {
                    Some(_) => {},
                    None => {
                        return Err(SaidError::UnknownIdentity);
                    },
                }
            },
            _ => {
                return Err(SaidError::UnknownIdentity);
            },
        }
        match self.find_validation(ctx.agent_identity, task_hash) {
            Some(_) => {
                return Err(SaidError::DuplicateValidation);
            },
            None => {},
        }
        let (_, bump) = derive_validation_address(&ctx.agent_identity, task_hash);
        let record = ValidationRecord {
            agent_id: ctx.agent_identity,
            validator: ctx.validator,
            task_hash,
            passed,
            evidence_uri: evidence_uri.clone(),
            timestamp: now,
            bump,
        };
        let ghost grec = record;
        self.validations.push(record);
        proof {
            Self::lemma_records_wf_val_push(*old(self), *self, grec);
        }
        Ok(
            WorkValidated {
                agent_id: ctx.agent_identity,
                validator: ctx.validator,
                task_hash,
                passed,
                evidence_uri,
            },
        )
    }
}

/// The reputation record one feedback submission leaves for the identity at
/// `a`: counters start at zero if the identity had no reputation yet, the
/// chosen counter and the interaction total each grow by one, and the score
/// is recomputed from the new counters.
pub open spec fn reputation_after(pre: Registry, a: Address, positive: bool, now: i64) -> AgentReputation {
    let prev_total = if pre.has_reputation(a) {
        pre.reputation_of(a).total_interactions as int
    } else {
        0
    };
    let prev_pos = if pre.has_reputation(a) {
        pre.reputation_of(a).positive_feedback as int
    } else {
        0
    };
    let prev_neg = if pre.has_reputation(a) {
        pre.reputation_of(a).negative_feedback as int
    } else {
        0
    };
    let bump = if pre.has_reputation(a) {
        pre.reputation_of(a).bump
    } else {
        crate::address::DISAMBIGUATOR
    };
    AgentReputation {
        agent_id: a,
        total_interactions: (prev_total + 1) as u64,
        positive_feedback: (if positive {
            prev_pos + 1
        } else {
            prev_pos
        }) as u64,
        negative_feedback: (if positive {
            prev_neg
        } else {
            prev_neg + 1
        }) as u64,
        reputation_score: score_of(
            if positive {
                prev_pos + 1
            } else {
                prev_pos
            },
            prev_total + 1,
        ) as u16,
        last_updated: now,
        bump,
    }
}

/// In every reachable state (well-formedness holds initially and every
/// operation preserves it), each reputation record obeys the counter law:
/// after any sequence of feedback submissions, `total_interactions` equals
/// `positive_feedback` plus `negative_feedback`, and the stored score is
/// `floor(positive_feedback * 10000 / total_interactions)`, always within
/// 0 to 10000 basis points.
pub proof fn lemma_reputation_counters(r: Registry, a: Address)
    requires
        r.wf(),
        r.has_reputation(a),
    ensures
        r.reputation_of(a).total_interactions == r.reputation_of(a).positive_feedback
            + r.reputation_of(a).negative_feedback,
        r.reputation_of(a).total_interactions >= 1,
        r.reputation_of(a).reputation_score == score_of(
            r.reputation_of(a).positive_feedback as int,
            r.reputation_of(a).total_interactions as int,
        ),
        0 <= r.reputation_of(a).reputation_score <= 10000,
{
    let k = r.reputation_index(a);
    assert(0 <= k < r.reputations@.len() && r.reputations@[k].agent_id == a);
    assert(r.reputations@[k].wf());
    crate::records::lemma_score_bounded(
        r.reputations@[k].positive_feedback as int,
        r.reputations@[k].total_interactions as int,
    );
}

/// Computes `floor(positive * 10000 / total)`: the share of positive
/// feedback in basis points.
fn compute_score(positive: u64, total: u64) -> (r: u16)
    requires
        1 <= total,
        positive <= total,
    ensures
        r as int == score_of(positive as int, total as int),
{
    proof {
        crate::records::lemma_score_bounded(positive as int, total as int);
    }
    let wide: u128 = (positive as u128) * 10000 / (total as u128);
    wide as u16
}

} // verus!
