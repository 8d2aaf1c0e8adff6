use solquad::registration::{
    add_project_to_pool, initialize_escrow, initialize_pool, initialize_project,
};
use solquad::settlement::distribute_escrow_amount;
use solquad::types::{ErrorCode, Escrow, Key, Pool, Project, Voter};
use solquad::voting::vote_for_project;

fn project_member(owner: Key, name: &str) -> Project {
    Project {
        owner,
        name: String::from(name),
        votes_count: 0,
        voter_weighted_amount: 0,
        distributed_amount: 0,
        is_pool_member: true,
    }
}

#[test]
fn escrow_rejects_zero_deposit() {
    let r = initialize_escrow(Key(1), 0);
    assert!(matches!(r, Err(ErrorCode::InvalidAmount)));
}

#[test]
fn escrow_initial_state() {
    let escrow = initialize_escrow(Key(1), 1000).unwrap();
    assert_eq!(escrow.creator, Key(1));
    assert_eq!(escrow.deposit_amount, 1000);
    assert_eq!(escrow.project_count, 0);
    assert!(escrow.receivers.is_empty());
}

#[test]
fn pool_initial_state() {
    let pool = initialize_pool(Key(2));
    assert_eq!(pool.creator, Key(2));
    assert_eq!(pool.project_count, 0);
    assert_eq!(pool.total_votes, 0);
    assert!(pool.members.is_empty());
}

#[test]
fn project_initial_state() {
    let project = initialize_project(Key(10), String::from("alpha"));
    assert_eq!(project.owner, Key(10));
    assert_eq!(project.name, String::from("alpha"));
    assert_eq!(project.votes_count, 0);
    assert_eq!(project.voter_weighted_amount, 0);
    assert_eq!(project.distributed_amount, 0);
    assert!(!project.is_pool_member);
}

#[test]
fn registration_links_pool_and_escrow() {
    let mut escrow = initialize_escrow(Key(1), 1000).unwrap();
    let mut pool = initialize_pool(Key(2));
    let mut a = initialize_project(Key(10), String::from("alpha"));
    assert!(add_project_to_pool(&mut escrow, &mut pool, &mut a).is_ok());
    assert_eq!(pool.members, vec![Key(10)]);
    assert_eq!(pool.project_count, 1);
    assert_eq!(escrow.receivers, vec![Key(10)]);
    assert!(a.is_pool_member);
}

#[test]
fn no_double_registration() {
    let mut escrow = initialize_escrow(Key(1), 1000).unwrap();
    let mut pool = initialize_pool(Key(2));
    let mut a = initialize_project(Key(10), String::from("alpha"));
    assert!(add_project_to_pool(&mut escrow, &mut pool, &mut a).is_ok());

    // The same project a second time.
    let again = add_project_to_pool(&mut escrow, &mut pool, &mut a);
    assert!(matches!(again, Err(ErrorCode::ProjectAlreadyInPool)));

    // A fresh project carrying the same owner key.
    let mut twin = initialize_project(Key(10), String::from("alpha again"));
    let twin_r = add_project_to_pool(&mut escrow, &mut pool, &mut twin);
    assert!(matches!(twin_r, Err(ErrorCode::ProjectAlreadyExists)));
    assert!(!twin.is_pool_member);

    // Nothing changed on the failed attempts.
    assert_eq!(pool.members, vec![Key(10)]);
    assert_eq!(pool.project_count, 1);
    assert_eq!(escrow.receivers, vec![Key(10)]);
}

#[test]
fn vote_counts_match_successful_calls() {
    let mut escrow = initialize_escrow(Key(1), 1000).unwrap();
    let mut pool = initialize_pool(Key(2));
    let mut a = initialize_project(Key(10), String::from("alpha"));
    let mut b = initialize_project(Key(11), String::from("beta"));
    add_project_to_pool(&mut escrow, &mut pool, &mut a).unwrap();
    add_project_to_pool(&mut escrow, &mut pool, &mut b).unwrap();

    assert!(vote_for_project(&mut pool, &mut a, 5).is_ok());
    assert!(vote_for_project(&mut pool, &mut a, 7).is_ok());
    assert!(vote_for_project(&mut pool, &mut b, 11).is_ok());

    // A vote for a non-member does not count.
    let mut outsider = initialize_project(Key(99), String::from("gamma"));
    let r = vote_for_project(&mut pool, &mut outsider, 1);
    assert!(matches!(r, Err(ErrorCode::ProjectNotInPool)));

    assert_eq!(pool.total_votes, 3);
    assert_eq!(a.votes_count, 2);
    assert_eq!(a.voter_weighted_amount, 12);
    assert_eq!(b.votes_count, 1);
    assert_eq!(b.voter_weighted_amount, 11);
    assert_eq!(outsider.votes_count, 0);
    assert_eq!(outsider.voter_weighted_amount, 0);
}

#[test]
fn vote_weight_overflow_is_rejected() {
    let mut pool = Pool {
        creator: Key(2),
        project_count: 1,
        total_votes: 0,
        members: vec![Key(10)],
    };
    let mut a = project_member(Key(10), "alpha");
    a.voter_weighted_amount = u64::MAX - 1;
    let r = vote_for_project(&mut pool, &mut a, 2);
    assert!(matches!(r, Err(ErrorCode::ArithmeticOverflow)));
    assert_eq!(a.votes_count, 0);
    assert_eq!(a.voter_weighted_amount, u64::MAX - 1);
    assert_eq!(pool.total_votes, 0);

    // Exactly reaching the ceiling is still fine.
    assert!(vote_for_project(&mut pool, &mut a, 1).is_ok());
    assert_eq!(a.voter_weighted_amount, u64::MAX);
    assert_eq!(a.votes_count, 1);
    assert_eq!(pool.total_votes, 1);
}

#[test]
fn vote_count_overflow_is_rejected() {
    let mut pool = Pool {
        creator: Key(2),
        project_count: 1,
        total_votes: 0,
        members: vec![Key(10)],
    };
    let mut a = project_member(Key(10), "alpha");
    a.votes_count = u64::MAX;
    let r = vote_for_project(&mut pool, &mut a, 1);
    assert!(matches!(r, Err(ErrorCode::ArithmeticOverflow)));
    assert_eq!(a.votes_count, u64::MAX);
    assert_eq!(pool.total_votes, 0);
}

#[test]
fn settlement_splits_proportionally() {
    let mut escrow = initialize_escrow(Key(1), 1000).unwrap();
    let mut pool = initialize_pool(Key(2));
    let mut a = initialize_project(Key(10), String::from("alpha"));
    let mut b = initialize_project(Key(11), String::from("beta"));
    add_project_to_pool(&mut escrow, &mut pool, &mut a).unwrap();
    add_project_to_pool(&mut escrow, &mut pool, &mut b).unwrap();

    vote_for_project(&mut pool, &mut a, 1).unwrap();
    vote_for_project(&mut pool, &mut a, 1).unwrap();
    vote_for_project(&mut pool, &mut a, 1).unwrap();
    vote_for_project(&mut pool, &mut b, 1).unwrap();
    assert_eq!(pool.total_votes, 4);

    let mut projects = vec![a, b];
    assert!(distribute_escrow_amount(&escrow, &pool, &mut projects).is_ok());
    assert_eq!(projects[0].distributed_amount, 750);
    assert_eq!(projects[1].distributed_amount, 250);
    // Everything else is untouched.
    assert_eq!(projects[0].votes_count, 3);
    assert_eq!(projects[1].votes_count, 1);
    assert_eq!(pool.total_votes, 4);
}

#[test]
fn settlement_without_votes_fails_closed() {
    let mut escrow = initialize_escrow(Key(1), 1000).unwrap();
    let mut pool = initialize_pool(Key(2));
    let mut a = initialize_project(Key(10), String::from("alpha"));
    let mut b = initialize_project(Key(11), String::from("beta"));
    add_project_to_pool(&mut escrow, &mut pool, &mut a).unwrap();
    add_project_to_pool(&mut escrow, &mut pool, &mut b).unwrap();

    let mut projects = vec![a, b];
    let r = distribute_escrow_amount(&escrow, &pool, &mut projects);
    assert!(matches!(r, Err(ErrorCode::NoVotesCast)));
    assert_eq!(projects[0].distributed_amount, 0);
    assert_eq!(projects[1].distributed_amount, 0);
}

#[test]
fn settlement_truncates_and_stays_within_deposit() {
    let mut escrow = initialize_escrow(Key(1), 10).unwrap();
    let mut pool = initialize_pool(Key(2));
    let mut a = initialize_project(Key(10), String::from("alpha"));
    let mut b = initialize_project(Key(11), String::from("beta"));
    add_project_to_pool(&mut escrow, &mut pool, &mut a).unwrap();
    add_project_to_pool(&mut escrow, &mut pool, &mut b).unwrap();

    vote_for_project(&mut pool, &mut a, 0).unwrap();
    vote_for_project(&mut pool, &mut b, 0).unwrap();
    vote_for_project(&mut pool, &mut b, 0).unwrap();

    let mut projects = vec![a, b];
    distribute_escrow_amount(&escrow, &pool, &mut projects).unwrap();
    // 1 * 10 / 3 and 2 * 10 / 3, truncated.
    assert_eq!(projects[0].distributed_amount, 3);
    assert_eq!(projects[1].distributed_amount, 6);
    let total: u64 = projects.iter().map(|p| p.distributed_amount).sum();
    assert!(total <= escrow.deposit_amount);
}

#[test]
fn settlement_skips_overflowing_product() {
    let escrow = Escrow {
        creator: Key(1),
        deposit_amount: 2,
        project_count: 0,
        receivers: vec![Key(10)],
    };
    let pool = Pool {
        creator: Key(2),
        project_count: 1,
        total_votes: 1,
        members: vec![Key(10)],
    };
    let mut a = project_member(Key(10), "alpha");
    a.votes_count = u64::MAX;
    let mut projects = vec![a];
    assert!(distribute_escrow_amount(&escrow, &pool, &mut projects).is_ok());
    assert_eq!(projects[0].distributed_amount, 0);
}

#[test]
fn settlement_credits_nothing_to_mismatched_slot() {
    let escrow = Escrow {
        creator: Key(1),
        deposit_amount: 100,
        project_count: 0,
        receivers: vec![Key(10)],
    };
    let pool = Pool {
        creator: Key(2),
        project_count: 1,
        total_votes: 2,
        members: vec![Key(10)],
    };
    let mut stranger = project_member(Key(77), "delta");
    stranger.votes_count = 2;
    let mut projects = vec![stranger];
    assert!(distribute_escrow_amount(&escrow, &pool, &mut projects).is_ok());
    assert_eq!(projects[0].distributed_amount, 0);
}

#[test]
fn settling_twice_recomputes_the_same_shares() {
    let mut escrow = initialize_escrow(Key(1), 1000).unwrap();
    let mut pool = initialize_pool(Key(2));
    let mut a = initialize_project(Key(10), String::from("alpha"));
    let mut b = initialize_project(Key(11), String::from("beta"));
    add_project_to_pool(&mut escrow, &mut pool, &mut a).unwrap();
    add_project_to_pool(&mut escrow, &mut pool, &mut b).unwrap();
    vote_for_project(&mut pool, &mut a, 1).unwrap();
    vote_for_project(&mut pool, &mut a, 1).unwrap();
    vote_for_project(&mut pool, &mut a, 1).unwrap();
    vote_for_project(&mut pool, &mut b, 1).unwrap();

    let mut projects = vec![a, b];
    distribute_escrow_amount(&escrow, &pool, &mut projects).unwrap();
    let first: Vec<u64> = projects.iter().map(|p| p.distributed_amount).collect();

    let again = distribute_escrow_amount(&escrow, &pool, &mut projects);
    assert!(again.is_ok());
    let second: Vec<u64> = projects.iter().map(|p| p.distributed_amount).collect();
    assert_eq!(first, second);
    assert_eq!(second, vec![750, 250]);
}

#[test]
fn voter_record_keeps_its_fields() {
    let v = Voter {
        voter: Key(5),
        voted_for: Key(10),
        token_amount: 42,
    };
    assert_eq!(v.voter, Key(5));
    assert_eq!(v.voted_for, Key(10));
    assert_eq!(v.token_amount, 42);
}
