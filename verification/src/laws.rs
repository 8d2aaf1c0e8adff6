//! The allocator's laws: statements that tie several operations together,
//! proved once and for all.

use vstd::prelude::*;
use vstd::arithmetic::div_mod::{
    lemma_div_is_ordered, lemma_div_multiples_vanish, lemma_div_pos_is_pos,
    lemma_fundamental_div_mod, lemma_mod_bound,
};
use vstd::arithmetic::mul::{
    lemma_mul_inequality, lemma_mul_is_distributive_add, lemma_mul_is_distributive_add_other_way,
    lemma_mul_nonnegative,
};
use crate::registration::add_result;
use crate::settlement::{
    settle_shares, share_of, sum_distributed, sum_shares, sum_votes, votes_for,
};
use crate::types::{ErrorCode, Escrow, Key, Pool, Project};
use crate::voting::vote_ok_v;

verus! {

/// No double registration: once a project has been added to a pool —
/// its owner pushed onto the member list, its membership flag set — a
/// second attempt to add the same project is rejected with
/// `ProjectAlreadyInPool`, and an attempt to add a fresh project
/// carrying the same owner key is rejected with `ProjectAlreadyExists`.
pub proof fn lemma_no_double_registration(
    pool0: Pool,
    project0: Project,
    pool1: Pool,
    project1: Project,
    other: Project,
)
    requires
        add_result(pool0, project0) is Ok,
        pool1.members@ == pool0.members@.push(project0.owner),
        project1.owner == project0.owner,
        project1.is_pool_member,
        other.owner == project0.owner,
        !other.is_pool_member,
    ensures
        add_result(pool1, project1) == Err::<(), ErrorCode>(ErrorCode::ProjectAlreadyInPool),
        add_result(pool1, other) == Err::<(), ErrorCode>(ErrorCode::ProjectAlreadyExists),
{
    assert(pool1.members@.contains(project0.owner)) by {
        assert(pool1.members@[pool0.members@.len() as int] == project0.owner);
    }
}

/// For nonnegative numerators, quotients may only grow when added under
/// one denominator: `a / t + b / t <= (a + b) / t`.
proof fn lemma_div_sum_le(a: int, b: int, t: int)
    requires
        t > 0,
        a >= 0,
        b >= 0,
    ensures
        a / t + b / t <= (a + b) / t,
{
    lemma_fundamental_div_mod(a, t);
    lemma_fundamental_div_mod(b, t);
    lemma_mod_bound(a, t);
    lemma_mod_bound(b, t);
    assert(t * (a / t + b / t) == t * (a / t) + t * (b / t)) by {
        lemma_mul_is_distributive_add(t, a / t, b / t);
    }
    assert(t * (a / t + b / t) <= a + b);
    lemma_div_is_ordered(t * (a / t + b / t), a + b, t);
    lemma_div_multiples_vanish(a / t + b / t, t);
}

/// One receiver's settlement share never exceeds its exact quotient:
/// `share_of(v, d, t) <= v * d / t`.
proof fn lemma_share_le_quotient(v: u64, d: u64, t: u64)
    requires
        t > 0,
    ensures
        0 <= share_of(v, d, t) <= (v * d) / (t as int),
{
    lemma_mul_nonnegative(v as int, d as int);
    lemma_div_pos_is_pos(v * d, t as int);
}

/// The shares of the first `n` receivers sum to no more than the
/// quotient of the summed votes: partial sums of truncated quotients
/// stay under the quotient of the sum.
proof fn lemma_sum_shares_le(
    members: Seq<Key>,
    projects: Seq<Project>,
    deposit: u64,
    total: u64,
    n: int,
)
    requires
        total > 0,
    ensures
        0 <= sum_votes(members, projects, n),
        sum_shares(members, projects, deposit, total, n) <= (sum_votes(members, projects, n)
            * deposit) / (total as int),
    decreases n,
{
    if n <= 0 {
    } else {
        lemma_sum_shares_le(members, projects, deposit, total, n - 1);
        let v = votes_for(members, projects, n - 1);
        let vs = sum_votes(members, projects, n - 1);
        lemma_share_le_quotient(v, deposit, total);
        lemma_mul_nonnegative(vs, deposit as int);
        lemma_mul_nonnegative(v as int, deposit as int);
        lemma_div_sum_le(vs * deposit, v * deposit, total as int);
        assert((vs + v) * deposit == vs * deposit + v * deposit) by {
            lemma_mul_is_distributive_add_other_way(deposit as int, vs, v as int);
        }
    }
}

/// After settlement, the recorded shares of the first `n` records are
/// exactly the computed shares of the first `n` receivers.
proof fn lemma_sum_distributed_settled(escrow: Escrow, pool: Pool, projects: Seq<Project>, n: int)
    requires
        n <= projects.len(),
    ensures
        sum_distributed(settle_shares(escrow, pool, projects), n) == sum_shares(
            pool.members@,
            projects,
            escrow.deposit_amount,
            pool.total_votes,
            n,
        ),
    decreases n,
{
    if n > 0 {
        lemma_sum_distributed_settled(escrow, pool, projects, n - 1);
    }
}

/// Settlement bound: whenever votes were cast and no project claims more
/// votes than the pool counted, the settled shares sum to at most the
/// deposit — settlement can never hand out more than the escrow holds.
pub proof fn lemma_settlement_bound(escrow: Escrow, pool: Pool, projects: Seq<Project>)
    requires
        pool.total_votes > 0,
        sum_votes(pool.members@, projects, projects.len() as int) <= pool.total_votes,
    ensures
        0 <= sum_distributed(settle_shares(escrow, pool, projects), projects.len() as int)
            <= escrow.deposit_amount,
{
    let n = projects.len() as int;
    let members = pool.members@;
    let t = pool.total_votes;
    let d = escrow.deposit_amount;
    let vs = sum_votes(members, projects, n);
    lemma_sum_shares_le(members, projects, d, t, n);
    lemma_mul_inequality(vs, t as int, d as int);
    lemma_mul_nonnegative(vs, d as int);
    lemma_div_is_ordered(vs * d, (t as int) * (d as int), t as int);
    lemma_div_multiples_vanish(d as int, t as int);
    lemma_div_pos_is_pos(vs * d, t as int);
    lemma_sum_distributed_settled(escrow, pool, projects, n);
    lemma_sum_shares_nonneg(members, projects, d, t, n);
}

/// Every partial sum of settlement shares is nonnegative.
proof fn lemma_sum_shares_nonneg(
    members: Seq<Key>,
    projects: Seq<Project>,
    deposit: u64,
    total: u64,
    n: int,
)
    requires
        total > 0,
    ensures
        0 <= sum_shares(members, projects, deposit, total, n),
    decreases n,
{
    if n > 0 {
        lemma_sum_shares_nonneg(members, projects, deposit, total, n - 1);
        lemma_share_le_quotient(votes_for(members, projects, n - 1), deposit, total);
    }
}

/// Replays a sequence of registration events against a pool. The pool is
/// given by its member keys; the candidate project records by their owner
/// keys and their membership flags, index-aligned with `owners`. Each
/// event names a record by index and either succeeds — pushing the owner
/// onto the member list and setting the record's flag, exactly as one
/// `add_project_to_pool` call does — or changes nothing. A step is
/// possible only while the member counter has room.
pub open spec fn run_adds(
    owners: Seq<Key>,
    members: Seq<Key>,
    flags: Seq<bool>,
    events: Seq<usize>,
) -> (Seq<Key>, Seq<bool>)
    decreases events.len(),
{
    if events.len() <= 0 {
        (members, flags)
    } else {
        let j = events[0] as int;
        if j < owners.len() && !flags[j] && !members.contains(owners[j]) && members.len()
            < u8::MAX {
            run_adds(owners, members.push(owners[j]), flags.update(j, true), events.drop_first())
        } else {
            run_adds(owners, members, flags, events.drop_first())
        }
    }
}

/// How many of the replayed registration events succeed and name the
/// record at index `p`.
pub open spec fn successful_adds_for(
    owners: Seq<Key>,
    members: Seq<Key>,
    flags: Seq<bool>,
    events: Seq<usize>,
    p: int,
) -> int
    decreases events.len(),
{
    if events.len() <= 0 {
        0
    } else {
        let j = events[0] as int;
        if j < owners.len() && !flags[j] && !members.contains(owners[j]) && members.len()
            < u8::MAX {
            (if j == p {
                1int
            } else {
                0int
            }) + successful_adds_for(
                owners,
                members.push(owners[j]),
                flags.update(j, true),
                events.drop_first(),
                p,
            )
        } else {
            successful_adds_for(owners, members, flags, events.drop_first(), p)
        }
    }
}

/// How many of the replayed registration events succeed for a record
/// whose owner is `k`.
pub open spec fn successful_adds_with_key(
    owners: Seq<Key>,
    members: Seq<Key>,
    flags: Seq<bool>,
    events: Seq<usize>,
    k: Key,
) -> int
    decreases events.len(),
{
    if events.len() <= 0 {
        0
    } else {
        let j = events[0] as int;
        if j < owners.len() && !flags[j] && !members.contains(owners[j]) && members.len()
            < u8::MAX {
            (if owners[j] == k {
                1int
            } else {
                0int
            }) + successful_adds_with_key(
                owners,
                members.push(owners[j]),
                flags.update(j, true),
                events.drop_first(),
                k,
            )
        } else {
            successful_adds_with_key(owners, members, flags, events.drop_first(), k)
        }
    }
}

/// No double registration, over any sequence of registration events: a
/// record whose membership flag is already set never joins again; any one
/// record joins at most once; a key already on the member list never
/// joins again under any record; and at most one record carrying a given
/// owner key ever joins.
pub proof fn lemma_registration_at_most_once(
    owners: Seq<Key>,
    members: Seq<Key>,
    flags: Seq<bool>,
    events: Seq<usize>,
    p: int,
    k: Key,
)
    requires
        flags.len() == owners.len(),
        0 <= p < owners.len(),
    ensures
        flags[p] ==> successful_adds_for(owners, members, flags, events, p) == 0,
        successful_adds_for(owners, members, flags, events, p) <= 1,
        members.contains(k) ==> successful_adds_with_key(owners, members, flags, events, k) == 0,
        successful_adds_with_key(owners, members, flags, events, k) <= 1,
    decreases events.len(),
{
    if events.len() > 0 {
        let j = events[0] as int;
        let rest = events.drop_first();
        if j < owners.len() && !flags[j] && !members.contains(owners[j]) && members.len()
            < u8::MAX {
            let members2 = members.push(owners[j]);
            let flags2 = flags.update(j, true);
            assert(members2.contains(owners[j])) by {
                assert(members2[members.len() as int] == owners[j]);
            }
            assert(members.contains(k) ==> members2.contains(k)) by {
                if members.contains(k) {
                    let i = choose|i: int| 0 <= i < members.len() && members[i] == k;
                    assert(members2[i] == k);
                }
            }
            lemma_registration_at_most_once(owners, members2, flags2, rest, p, k);
        } else {
            lemma_registration_at_most_once(owners, members, flags, rest, p, k);
        }
    }
}

/// Replays a sequence of vote events against a pool's tallies. The pool
/// is given by its member keys and its pool-wide vote count `total`; the
/// candidate projects by their owner keys and their `counts` and
/// `weights` tallies, index-aligned with `owners`. Each event names a
/// project by index and carries a weight, and either succeeds — raising
/// that project's count, its weighted total, and the pool-wide count,
/// exactly as one `vote_for_project` call does — or changes nothing.
pub open spec fn run_votes(
    members: Seq<Key>,
    owners: Seq<Key>,
    counts: Seq<u64>,
    weights: Seq<u64>,
    total: u64,
    events: Seq<(usize, u64)>,
) -> (Seq<u64>, Seq<u64>, u64)
    decreases events.len(),
{
    if events.len() <= 0 {
        (counts, weights, total)
    } else {
        let j = events[0].0 as int;
        let w = events[0].1;
        if j < owners.len() && vote_ok_v(members, owners[j], counts[j], weights[j], total, w) {
            run_votes(
                members,
                owners,
                counts.update(j, (counts[j] + 1) as u64),
                weights.update(j, (weights[j] + w) as u64),
                (total + 1) as u64,
                events.drop_first(),
            )
        } else {
            run_votes(members, owners, counts, weights, total, events.drop_first())
        }
    }
}

/// How many of the replayed events succeed.
pub open spec fn successful_votes(
    members: Seq<Key>,
    owners: Seq<Key>,
    counts: Seq<u64>,
    weights: Seq<u64>,
    total: u64,
    events: Seq<(usize, u64)>,
) -> int
    decreases events.len(),
{
    if events.len() <= 0 {
        0
    } else {
        let j = events[0].0 as int;
        let w = events[0].1;
        if j < owners.len() && vote_ok_v(members, owners[j], counts[j], weights[j], total, w) {
            1 + successful_votes(
                members,
                owners,
                counts.update(j, (counts[j] + 1) as u64),
                weights.update(j, (weights[j] + w) as u64),
                (total + 1) as u64,
                events.drop_first(),
            )
        } else {
            successful_votes(members, owners, counts, weights, total, events.drop_first())
        }
    }
}

/// How many of the replayed events succeed and name project `p`.
pub open spec fn successful_votes_for(
    members: Seq<Key>,
    owners: Seq<Key>,
    counts: Seq<u64>,
    weights: Seq<u64>,
    total: u64,
    events: Seq<(usize, u64)>,
    p: int,
) -> int
    decreases events.len(),
{
    if events.len() <= 0 {
        0
    } else {
        let j = events[0].0 as int;
        let w = events[0].1;
        if j < owners.len() && vote_ok_v(members, owners[j], counts[j], weights[j], total, w) {
            (if j == p {
                1int
            } else {
                0int
            }) + successful_votes_for(
                members,
                owners,
                counts.update(j, (counts[j] + 1) as u64),
                weights.update(j, (weights[j] + w) as u64),
                (total + 1) as u64,
                events.drop_first(),
                p,
            )
        } else {
            successful_votes_for(members, owners, counts, weights, total, events.drop_first(), p)
        }
    }
}

/// Vote count conservation: after replaying any sequence of vote events,
/// the pool-wide count has grown by exactly the number of successful
/// events, and each project's count by exactly the number of successful
/// events naming it.
pub proof fn lemma_vote_count_conservation(
    members: Seq<Key>,
    owners: Seq<Key>,
    counts: Seq<u64>,
    weights: Seq<u64>,
    total: u64,
    events: Seq<(usize, u64)>,
)
    requires
        counts.len() == owners.len(),
        weights.len() == owners.len(),
    ensures
        run_votes(members, owners, counts, weights, total, events).2 == total + successful_votes(
            members,
            owners,
            counts,
            weights,
            total,
            events,
        ),
        run_votes(members, owners, counts, weights, total, events).0.len() == counts.len(),
        forall|p: int|
            0 <= p < owners.len() ==> run_votes(members, owners, counts, weights, total, events).0[p]
                == counts[p] + successful_votes_for(members, owners, counts, weights, total, events, p),
    decreases events.len(),
{
    if events.len() > 0 {
        let j = events[0].0 as int;
        let w = events[0].1;
        let rest = events.drop_first();
        if j < owners.len() && vote_ok_v(members, owners[j], counts[j], weights[j], total, w) {
            let counts2 = counts.update(j, (counts[j] + 1) as u64);
            let weights2 = weights.update(j, (weights[j] + w) as u64);
            lemma_vote_count_conservation(members, owners, counts2, weights2, (total + 1) as u64, rest);
            assert forall|p: int| 0 <= p < owners.len() implies run_votes(
                members,
                owners,
                counts,
                weights,
                total,
                events,
            ).0[p] == counts[p] + successful_votes_for(
                members,
                owners,
                counts,
                weights,
                total,
                events,
                p,
            ) by {
                assert(counts2[p] == counts[p] + if j == p {
                    1int
                } else {
                    0int
                });
            }
        } else {
            lemma_vote_count_conservation(members, owners, counts, weights, total, rest);
        }
    }
}

/// Settling a second time recomputes the same shares: the written share
/// depends only on fields settlement never changes, so settlement is
/// idempotent.
pub proof fn lemma_settle_idempotent(escrow: Escrow, pool: Pool, projects: Seq<Project>)
    ensures
        settle_shares(escrow, pool, settle_shares(escrow, pool, projects)) == settle_shares(
            escrow,
            pool,
            projects,
        ),
{
    let s1 = settle_shares(escrow, pool, projects);
    let s2 = settle_shares(escrow, pool, s1);
    assert forall|i: int| 0 <= i < s1.len() implies s2[i] == s1[i] by {
        assert(votes_for(pool.members@, s1, i) == votes_for(pool.members@, projects, i));
    }
    assert(s2 =~= s1);
}

} // verus!
