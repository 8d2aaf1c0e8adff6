//! Recording votes: one vote event raises the named project's tally and
//! the pool-wide vote count by one, and adds the vote's weight to the
//! project's weighted total.

use vstd::prelude::*;
use crate::types::{contains_key, ErrorCode, Key, Pool, Project};

verus! {

/// Whether one vote succeeds, stated over the plain values a vote
/// touches: the project's owner must be among the pool members and all
/// three tallies must still have room to grow.
pub open spec fn vote_ok_v(
    members: Seq<Key>,
    owner: Key,
    count: u64,
    weighted: u64,
    total: u64,
    weight: u64,
) -> bool {
    &&& members.contains(owner)
    &&& weighted + weight <= u64::MAX
    &&& count < u64::MAX
    &&& total < u64::MAX
}

/// Whether a vote of weight `weight` for `project` in `pool` succeeds.
pub open spec fn vote_ok(pool: Pool, project: Project, weight: u64) -> bool {
    vote_ok_v(
        pool.members@,
        project.owner,
        project.votes_count,
        project.voter_weighted_amount,
        pool.total_votes,
        weight,
    )
}

/// The outcome of a vote of weight `weight` for `project` in `pool`.
pub open spec fn vote_result(pool: Pool, project: Project, weight: u64) -> Result<(), ErrorCode> {
    if !pool.members@.contains(project.owner) {
        Err(ErrorCode::ProjectNotInPool)
    } else if vote_ok(pool, project, weight) {
        Ok(())
    } else {
        Err(ErrorCode::ArithmeticOverflow)
    }
}

/// Casts one vote of weight `amount` for `project` in `pool`. A vote for
/// a project that is not a pool member is rejected with `ProjectNotInPool`;
/// a vote that would overflow any tally is rejected with
/// `ArithmeticOverflow`. A rejected vote leaves both records untouched.
pub fn vote_for_project(pool: &mut Pool, project: &mut Project, amount: u64) -> (r: Result<
    (),
    ErrorCode,
>)
    ensures
        r == vote_result(*old(pool), *old(project), amount),
        r is Ok ==> {
            &&& final(project).votes_count == old(project).votes_count + 1
            &&& final(project).voter_weighted_amount == old(project).voter_weighted_amount
                + amount
            &&& final(pool).total_votes == old(pool).total_votes + 1
        },
        r is Err ==> {
            &&& *final(pool) == *old(pool)
            &&& *final(project) == *old(project)
        },
        final(pool).creator == old(pool).creator,
        final(pool).project_count == old(pool).project_count,
        final(pool).members@ == old(pool).members@,
        final(project).owner == old(project).owner,
        final(project).name == old(project).name,
        final(project).distributed_amount == old(project).distributed_amount,
        final(project).is_pool_member == old(project).is_pool_member,
{
    if !contains_key(&pool.members, project.owner) {
        return Err(ErrorCode::ProjectNotInPool);
    }
    if amount > u64::MAX - project.voter_weighted_amount || project.votes_count == u64::MAX
        || pool.total_votes == u64::MAX {
        return Err(ErrorCode::ArithmeticOverflow);
    }
    project.votes_count = project.votes_count + 1;
    project.voter_weighted_amount = project.voter_weighted_amount + amount;
    pool.total_votes = pool.total_votes + 1;
    Ok(())
}

} // verus!
