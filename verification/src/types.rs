//! The ledger records: escrow, pool, project, and the error taxonomy.

use vstd::prelude::*;

verus! {

/// An opaque participant identity. The allocator never looks inside a key;
/// it only compares keys for equality.
#[derive(Clone, Copy, PartialEq, Eq, Structural, Hash, Debug)]
pub struct Key(pub u64);

/// Why a registration, voting or settlement operation was refused.
#[derive(Clone, Copy, PartialEq, Eq, Structural, Debug)]
pub enum ErrorCode {
    /// The project record was already added to a pool.
    ProjectAlreadyInPool,
    /// Another project with the same owner key is already a pool member.
    ProjectAlreadyExists,
    /// A tally could not be updated without overflowing its counter.
    ArithmeticOverflow,
    /// Settlement was asked for before any vote was cast.
    NoVotesCast,
    /// A vote named a project that is not a member of the pool.
    ProjectNotInPool,
    /// An escrow cannot be opened with an empty deposit.
    InvalidAmount,
}

/// The matching-fund escrow: a fixed deposit and the ordered list of
/// project owners eligible to receive a share of it.
#[verifier::ext_equal]
#[derive(Clone, Debug)]
pub struct Escrow {
    /// Who opened the escrow; set once, never changed.
    pub creator: Key,
    /// The fixed size of the matching fund.
    pub deposit_amount: u64,
    /// Informational counter, set at creation.
    pub project_count: u8,
    /// Owners eligible for a settlement share, in registration order.
    pub receivers: Vec<Key>,
}

/// The voting arena: the set of competing project owners and the
/// pool-wide count of votes cast.
#[verifier::ext_equal]
#[derive(Clone, Debug)]
pub struct Pool {
    /// Who opened the pool; set once, never changed.
    pub creator: Key,
    /// Number of member projects; always equals the length of `members`.
    pub project_count: u8,
    /// Count of successful vote transactions, independent of their weights.
    pub total_votes: u64,
    /// Member project owners, in registration order, without duplicates.
    pub members: Vec<Key>,
}

/// A recipient candidate: its identity, tallies, and settlement share.
#[verifier::ext_equal]
#[derive(Clone, Debug)]
pub struct Project {
    /// The project's immutable identity, unique per pool.
    pub owner: Key,
    /// A human-readable label; never interpreted.
    pub name: String,
    /// Number of vote transactions received.
    pub votes_count: u64,
    /// Sum of the weights of all votes received.
    pub voter_weighted_amount: u64,
    /// The settlement share; zero until settlement runs.
    pub distributed_amount: u64,
    /// True once the project joined a pool; never reset.
    pub is_pool_member: bool,
}

/// A vote event, kept only for auditability: who voted, for whom,
/// and with what weight.
#[derive(Clone, Copy, PartialEq, Eq, Structural, Debug)]
pub struct Voter {
    pub voter: Key,
    pub voted_for: Key,
    pub token_amount: u64,
}

/// An escrow is well formed when no receiver is listed twice.
pub open spec fn escrow_wf(e: Escrow) -> bool {
    e.receivers@.no_duplicates()
}

/// A pool is well formed when no member is listed twice and the member
/// counter agrees with the member list.
pub open spec fn pool_wf(p: Pool) -> bool {
    &&& p.members@.no_duplicates()
    &&& p.project_count == p.members@.len()
}

/// An escrow and a pool are paired when they record the same projects in
/// the same order: registration appends to both lists atomically.
pub open spec fn paired(e: Escrow, p: Pool) -> bool {
    e.receivers@ == p.members@
}

/// Whether `k` occurs among the recorded keys.
pub fn contains_key(keys: &Vec<Key>, k: Key) -> (b: bool)
    ensures
        b == keys@.contains(k),
{
    let mut i: usize = 0;
    while i < keys.len()
        invariant
            i <= keys@.len(),
            forall|j: int| 0 <= j < i ==> keys@[j] != k,
        decreases keys@.len() - i,
    {
        if keys[i] == k {
            assert(keys@.contains(k)) by {
                assert(keys@[i as int] == k);
            }
            return true;
        }
        i += 1;
    }
    false
}

} // verus!
