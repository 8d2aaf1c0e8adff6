//! Settlement: splitting the escrow's deposit across the projects in
//! proportion to the votes each one received.
//!
//! Each project's share is computed and written independently of the
//! others: receiver `i` gets `votes * deposit / total_votes`, truncated,
//! where `votes` is its own tally. A project whose member slot does not
//! agree with its owner, or whose product `votes * deposit` would
//! overflow, receives nothing. Because the written share depends only on
//! tallies that settlement never changes, running settlement again
//! recomputes the very same shares.

use vstd::prelude::*;
use crate::types::{ErrorCode, Escrow, Key, Pool, Project};

verus! {

/// The votes credited to receiver `i`: the project's own tally when the
/// pool's member slot at `i` agrees with the project's owner, else none.
pub open spec fn votes_for(members: Seq<Key>, projects: Seq<Project>, i: int) -> u64 {
    if members[i] == projects[i].owner {
        projects[i].votes_count
    } else {
        0
    }
}

/// The settlement share of a project with `votes` votes, out of a deposit
/// of `deposit` and `total` votes cast pool-wide: `votes * deposit /
/// total`, truncated. A product beyond `u64::MAX` is skipped and yields
/// no share.
pub open spec fn share_of(votes: u64, deposit: u64, total: u64) -> u64
    recommends
        total > 0,
{
    if votes == 0 {
        0
    } else if votes * deposit > u64::MAX {
        0
    } else {
        ((votes * deposit) / (total as int)) as u64
    }
}

/// A project record with its settlement share written in.
pub open spec fn settled_project(p: Project, votes: u64, deposit: u64, total: u64) -> Project {
    Project { distributed_amount: share_of(votes, deposit, total), ..p }
}

/// The project records as settlement leaves them: each with its own
/// share, every other field untouched.
pub open spec fn settle_shares(escrow: Escrow, pool: Pool, projects: Seq<Project>) -> Seq<
    Project,
> {
    Seq::new(
        projects.len(),
        |i: int|
            settled_project(
                projects[i],
                votes_for(pool.members@, projects, i),
                escrow.deposit_amount,
                pool.total_votes,
            ),
    )
}

/// The votes credited to the first `n` receivers, added up.
pub open spec fn sum_votes(members: Seq<Key>, projects: Seq<Project>, n: int) -> int
    decreases n,
{
    if n <= 0 {
        0
    } else {
        sum_votes(members, projects, n - 1) + votes_for(members, projects, n - 1)
    }
}

/// The settlement shares of the first `n` receivers, added up.
pub open spec fn sum_shares(
    members: Seq<Key>,
    projects: Seq<Project>,
    deposit: u64,
    total: u64,
    n: int,
) -> int
    decreases n,
{
    if n <= 0 {
        0
    } else {
        sum_shares(members, projects, deposit, total, n - 1) + share_of(
            votes_for(members, projects, n - 1),
            deposit,
            total,
        )
    }
}

/// The recorded shares of the first `n` project records, added up.
pub open spec fn sum_distributed(projects: Seq<Project>, n: int) -> int
    decreases n,
{
    if n <= 0 {
        0
    } else {
        sum_distributed(projects, n - 1) + projects[n - 1].distributed_amount
    }
}

/// Writes each project's settlement share into its record. Nothing is
/// distributed before the first vote: with no votes cast the call is
/// rejected with `NoVotesCast` and no record changes.
pub fn distribute_escrow_amount(escrow: &Escrow, pool: &Pool, projects: &mut Vec<Project>) -> (r:
    Result<(), ErrorCode>)
    requires
        old(projects)@.len() == escrow.receivers@.len(),
        pool.members@.len() == escrow.receivers@.len(),
    ensures
        pool.total_votes == 0 <==> r == Err::<(), ErrorCode>(ErrorCode::NoVotesCast),
        pool.total_votes == 0 ==> final(projects)@ == old(projects)@,
        pool.total_votes > 0 ==> r == Ok::<(), ErrorCode>(()) && final(projects)@ == settle_shares(
            *escrow,
            *pool,
            old(projects)@,
        ),
        pool.total_votes > 0 && sum_votes(
            pool.members@,
            old(projects)@,
            old(projects)@.len() as int,
        ) <= pool.total_votes ==> sum_distributed(
            final(projects)@,
            final(projects)@.len() as int,
        ) <= escrow.deposit_amount,
{
    if pool.total_votes == 0 {
        return Err(ErrorCode::NoVotesCast);
    }
    let ghost orig: Seq<Project> = projects@;
    let mut i: usize = 0;
    while i < projects.len()
        invariant
            pool.total_votes > 0,
            i <= projects@.len(),
            projects@.len() == orig.len(),
            pool.members@.len() == orig.len(),
            forall|k: int|
                0 <= k < i ==> projects@[k] == settled_project(
                    orig[k],
                    votes_for(pool.members@, orig, k),
                    escrow.deposit_amount,
                    pool.total_votes,
                ),
            forall|k: int| i <= k < orig.len() ==> projects@[k] == orig[k],
        decreases orig.len() - i,
    {
        let votes: u64 = if pool.members[i] == projects[i].owner {
            projects[i].votes_count
        } else {
            0
        };
        let mut share: u64 = 0;
        if votes != 0 {
            match votes.checked_mul(escrow.deposit_amount) {
                Some(product) => {
                    share = product / pool.total_votes;
                },
                None => {},
            }
        }
        assert(share == share_of(votes, escrow.deposit_amount, pool.total_votes));
        let slot = &mut projects[i];
        slot.distributed_amount = share;
        i += 1;
    }
    assert(projects@ =~= settle_shares(*escrow, *pool, orig));
    proof {
        if sum_votes(pool.members@, orig, orig.len() as int) <= pool.total_votes {
            crate::laws::lemma_settlement_bound(*escrow, *pool, orig);
        }
    }
    Ok(())
}

} // verus!
