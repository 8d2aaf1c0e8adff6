//! Creating the ledger records and binding a project to a pool.

use vstd::prelude::*;
use crate::types::{contains_key, escrow_wf, paired, pool_wf, ErrorCode, Escrow, Key, Pool, Project};

verus! {

/// Whether adding `project` to `pool` succeeds: the project must not have
/// joined a pool before, and no member of `pool` may carry its owner key.
pub open spec fn add_ok(pool: Pool, project: Project) -> bool {
    &&& !project.is_pool_member
    &&& !pool.members@.contains(project.owner)
}

/// The outcome of an attempt to add `project` to `pool`.
pub open spec fn add_result(pool: Pool, project: Project) -> Result<(), ErrorCode> {
    if project.is_pool_member {
        Err(ErrorCode::ProjectAlreadyInPool)
    } else if pool.members@.contains(project.owner) {
        Err(ErrorCode::ProjectAlreadyExists)
    } else {
        Ok(())
    }
}

/// Opens an escrow holding a matching fund of `amount`, with nobody
/// registered to receive a share yet. An empty deposit is refused.
pub fn initialize_escrow(creator: Key, amount: u64) -> (r: Result<Escrow, ErrorCode>)
    ensures
        amount == 0 <==> r == Err::<Escrow, ErrorCode>(ErrorCode::InvalidAmount),
        amount != 0 ==> (r matches Ok(e)
            && e.creator == creator
            && e.deposit_amount == amount
            && e.project_count == 0
            && e.receivers@ == Seq::<Key>::empty()
            && escrow_wf(e)),
{
    if amount == 0 {
        return Err(ErrorCode::InvalidAmount);
    }
    Ok(Escrow { creator, deposit_amount: amount, project_count: 0, receivers: Vec::new() })
}

/// Opens a voting pool with no members and no votes cast.
pub fn initialize_pool(creator: Key) -> (p: Pool)
    ensures
        p.creator == creator,
        p.project_count == 0,
        p.total_votes == 0,
        p.members@ == Seq::<Key>::empty(),
        pool_wf(p),
{
    Pool { creator, project_count: 0, total_votes: 0, members: Vec::new() }
}

/// Creates a project record with empty tallies. The record does not join
/// any pool by being created; see `add_project_to_pool`.
pub fn initialize_project(owner: Key, name: String) -> (p: Project)
    ensures
        p.owner == owner,
        p.name == name,
        p.votes_count == 0,
        p.voter_weighted_amount == 0,
        p.distributed_amount == 0,
        !p.is_pool_member,
{
    Project {
        owner,
        name,
        votes_count: 0,
        voter_weighted_amount: 0,
        distributed_amount: 0,
        is_pool_member: false,
    }
}

/// Binds `project` to `pool` and registers its owner with `escrow`, both
/// atomically or neither. Fails with `ProjectAlreadyInPool` when the
/// project already joined a pool, and with `ProjectAlreadyExists` when
/// another member of the pool carries the same owner key.
pub fn add_project_to_pool(escrow: &mut Escrow, pool: &mut Pool, project: &mut Project) -> (r:
    Result<(), ErrorCode>)
    requires
        pool_wf(*old(pool)),
        paired(*old(escrow), *old(pool)),
        old(pool).project_count < u8::MAX,
    ensures
        r == add_result(*old(pool), *old(project)),
        r is Ok ==> {
            &&& final(pool).members@ == old(pool).members@.push(old(project).owner)
            &&& final(pool).project_count == old(pool).project_count + 1
            &&& final(escrow).receivers@ == old(escrow).receivers@.push(old(project).owner)
            &&& final(project).is_pool_member
        },
        r is Err ==> {
            &&& *final(escrow) == *old(escrow)
            &&& *final(pool) == *old(pool)
            &&& *final(project) == *old(project)
        },
        pool_wf(*final(pool)),
        paired(*final(escrow), *final(pool)),
        final(escrow).creator == old(escrow).creator,
        final(escrow).deposit_amount == old(escrow).deposit_amount,
        final(escrow).project_count == old(escrow).project_count,
        final(pool).creator == old(pool).creator,
        final(pool).total_votes == old(pool).total_votes,
        final(project).owner == old(project).owner,
        final(project).name == old(project).name,
        final(project).votes_count == old(project).votes_count,
        final(project).voter_weighted_amount == old(project).voter_weighted_amount,
        final(project).distributed_amount == old(project).distributed_amount,
        old(project).is_pool_member ==> final(project).is_pool_member,
{
    if project.is_pool_member {
        return Err(ErrorCode::ProjectAlreadyInPool);
    }
    if contains_key(&pool.members, project.owner) {
        return Err(ErrorCode::ProjectAlreadyExists);
    }
    pool.members.push(project.owner);
    pool.project_count = pool.project_count + 1;
    escrow.receivers.push(project.owner);
    project.is_pool_member = true;
    Ok(())
}

} // verus!
