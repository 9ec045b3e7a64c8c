use govledger::energy_dao::EnergyDao;
use govledger::energy_pool::EnergiePoolContract;
use govledger::errors::{Decision, OpError};
use govledger::platform::{Organisations, PlatformDao, Proposals};
use govledger::remote::RemoteCall;
use govledger::tally::{Tally, Vote};

const SEC: u64 = 1_000_000_000;

fn platform_with_p1(t: u64) -> PlatformDao {
    let mut dao = PlatformDao::new();
    dao.create_proposal(
        "creator.test".to_string(),
        t,
        0,
        "P1".to_string(),
        "register dao1".to_string(),
        "dao1".to_string(),
        "energy".to_string(),
        0,
        0,
        1,
    )
    .unwrap();
    dao
}

#[test]
fn vote_twice_fails_duplicate() {
    let t: u64 = 5_000_000_000_000;
    let mut dao = platform_with_p1(t);
    let first = dao.add_vote("ident.test".to_string(), t + SEC, "P1".to_string(), 1);
    assert_eq!(first, Ok(()));
    let second = dao.add_vote("ident.test".to_string(), t + 2 * SEC, "P1".to_string(), 0);
    assert_eq!(second, Err(OpError::DuplicateVote));
    let p = dao.get_specific_proposal("P1".to_string()).unwrap();
    assert_eq!(p.tally.votes_for, 1);
    assert_eq!(p.tally.votes_against, 0);
    assert_eq!(p.tally.votes.len(), 1);
}

#[test]
fn decide_pending_until_deadline_then_strict_majority() {
    let mut tally = Tally::new();
    tally.cast("a.test".to_string(), 5, 1).unwrap();
    tally.cast("b.test".to_string(), 6, 0).unwrap();
    let deadline: u64 = 100;
    assert_eq!(tally.decide(deadline, 99), Decision::Pending);
    assert_eq!(tally.decide(deadline, 100), Decision::Pending);
    assert_eq!(tally.decide(deadline, 101), Decision::Rejected);
    tally.cast("c.test".to_string(), 7, 1).unwrap();
    assert_eq!(tally.decide(deadline, 101), Decision::Accepted);
}

#[test]
fn one_minute_proposal_tie_then_majority() {
    let t: u64 = 5_000_000_000_000;
    let mut dao = platform_with_p1(t);
    let p = dao.get_specific_proposal("P1".to_string()).unwrap();
    assert_eq!(p.end_time(), t + 60_000_000);
    dao.add_vote("a.test".to_string(), t + 10 * SEC, "P1".to_string(), 1).unwrap();
    dao.add_vote("b.test".to_string(), t + 20 * SEC, "P1".to_string(), 0).unwrap();
    let p = dao.get_specific_proposal("P1".to_string()).unwrap();
    assert_eq!(p.decide(t + 30 * SEC), Decision::Rejected);
    assert!(!p.check_proposal(t + 30 * SEC));
    dao.add_vote("c.test".to_string(), t + 30 * SEC, "P1".to_string(), 1).unwrap();
    let p = dao.get_specific_proposal("P1".to_string()).unwrap();
    assert_eq!(p.decide(t + 30 * SEC), Decision::Accepted);
    assert!(p.check_proposal(t + 30 * SEC));
}

#[test]
fn finalize_runs_once_then_already_finalized() {
    let t: u64 = 5_000_000_000_000;
    let mut dao = platform_with_p1(t);
    let registry = "orgregistry.test".to_string();
    let early = dao.process_proposal(&registry, "P1".to_string(), t + 1);
    assert_eq!(early, Err(OpError::NotYetDecidable));
    dao.add_vote("a.test".to_string(), t + 10 * SEC, "P1".to_string(), 1).unwrap();
    let actions = dao.process_proposal(&registry, "P1".to_string(), t + 20 * SEC).unwrap();
    assert_eq!(actions.len(), 1);
    assert_eq!(
        actions[0],
        RemoteCall::AddDao {
            registry: registry.clone(),
            dao_name: "dao1".to_string(),
            dao_purpose: "energy".to_string(),
            duration_days: 0,
            duration_hours: 0,
            duration_min: 1,
        }
    );
    let orgs = dao.get_organisations();
    assert_eq!(orgs.len(), 1);
    assert_eq!(orgs[0].name, "dao1");
    assert_eq!(orgs[0].id, 0);
    let again = dao.process_proposal(&registry, "P1".to_string(), t + 40 * SEC);
    assert_eq!(again, Err(OpError::AlreadyFinalized));
    assert_eq!(dao.get_organisations().len(), 1);
    assert_eq!(dao.numb_of_organisations, 1);
}

#[test]
fn finalized_delete_proposal_removes_organisation() {
    let t: u64 = 5_000_000_000_000;
    let mut dao = platform_with_p1(t);
    dao.add_vote("a.test".to_string(), t + 10 * SEC, "P1".to_string(), 1).unwrap();
    let registry = "orgregistry.test".to_string();
    dao.process_proposal(&registry, "P1".to_string(), t + 20 * SEC).unwrap();
    dao.create_proposal(
        "creator.test".to_string(),
        t + 30 * SEC,
        1,
        "P2".to_string(),
        "delete dao1".to_string(),
        "dao1".to_string(),
        "energy".to_string(),
        0,
        0,
        1,
    )
    .unwrap();
    dao.add_vote("a.test".to_string(), t + 40 * SEC, "P2".to_string(), 1).unwrap();
    let actions = dao.process_proposal(&registry, "P2".to_string(), t + 60 * SEC).unwrap();
    assert_eq!(
        actions,
        vec![RemoteCall::DeleteDao { registry: registry.clone(), dao_name: "dao1".to_string() }]
    );
    assert_eq!(dao.get_organisations().len(), 0);
    assert!(matches!(
        dao.get_specific_organisation("dao1".to_string()),
        Err(OpError::NotFound)
    ));
}

#[test]
fn create_proposal_refuses_taken_name_and_bad_duration() {
    let t: u64 = 5_000_000_000_000;
    let mut dao = platform_with_p1(t);
    let dup = dao.create_proposal(
        "creator.test".to_string(),
        t,
        0,
        "P1".to_string(),
        "again".to_string(),
        "dao2".to_string(),
        "energy".to_string(),
        0,
        0,
        1,
    );
    assert_eq!(dup, Err(OpError::AlreadyExists));
    let huge = dao.create_proposal(
        "creator.test".to_string(),
        t,
        0,
        "P3".to_string(),
        "forever".to_string(),
        "dao3".to_string(),
        "energy".to_string(),
        u64::MAX,
        0,
        0,
    );
    assert_eq!(huge, Err(OpError::InvalidDuration));
}

#[test]
fn replace_proposal_rejects_unknown_name() {
    let t: u64 = 5_000_000_000_000;
    let mut dao = platform_with_p1(t);
    let mut stranger = Proposals::new();
    stranger.proposal_name = "missing".to_string();
    assert_eq!(dao.replace_proposal(stranger), Err(OpError::NotFound));
    assert!(matches!(
        dao.get_specific_proposal("missing".to_string()),
        Err(OpError::NotFound)
    ));
}

#[test]
fn platform_value_constructors() {
    let v = Vote::new();
    assert_eq!(v.address, "");
    assert_eq!(v.vote, 0);
    assert_eq!(v.time_of_vote, 0);
    let o = Organisations::new();
    assert_eq!(o.id, 0);
    assert_eq!(o.name, "");
    assert_eq!(o.number_members, 1);
    let p = Proposals::new();
    assert_eq!(p.proposal_name, "");
    assert_eq!(p.tally.votes_for, 0);
    assert!(!p.finalized);
}

#[test]
fn energy_pool_membership_and_settlement() {
    let t: u64 = 9_000_000_000_000;
    let mut pool = EnergiePoolContract::new("pool.test".to_string());
    pool.add_member("alice.test".to_string()).unwrap();
    assert_eq!(
        pool.add_member("alice.test".to_string()),
        Err(OpError::AlreadyExists)
    );
    let outsider = pool.create_proposal(
        "mallory.test".to_string(),
        t,
        "fund solar".to_string(),
        "panels".to_string(),
        7,
        "builder.test".to_string(),
        0,
        0,
        1,
    );
    assert_eq!(outsider, Err(OpError::Unauthorized));
    pool.create_proposal(
        "alice.test".to_string(),
        t,
        "fund solar".to_string(),
        "panels".to_string(),
        7,
        "builder.test".to_string(),
        0,
        0,
        1,
    )
    .unwrap();
    pool.add_vote("alice.test".to_string(), t + SEC, "fund solar".to_string(), 1).unwrap();
    assert_eq!(pool.get_votes_for("fund solar".to_string()), Ok(1));
    assert_eq!(pool.get_votes_against("fund solar".to_string()), Ok(0));
    assert_eq!(pool.get_nember_votes("fund solar".to_string()), Ok(1));
    assert_eq!(pool.get_end_time("fund solar".to_string()), Ok(t + 60_000_000));
    let (msg, action) = pool.check_and_send_near("fund solar".to_string(), t + 1).unwrap();
    assert_eq!(msg, "Proposal refused");
    assert!(action.is_none());
    let (msg, action) = pool
        .check_and_send_near("fund solar".to_string(), t + 70_000_000)
        .unwrap();
    assert_eq!(msg, "Proposal accepted and amount was sent");
    assert_eq!(
        action,
        Some(RemoteCall::NearTransfer {
            receiver: "builder.test".to_string(),
            amount: 7_000_000_000_000_000_000_000_000,
        })
    );
    let again = pool.check_and_send_near("fund solar".to_string(), t + 80_000_000);
    assert_eq!(again, Err(OpError::AlreadyFinalized));
    // an expired tie is refused without payment and stays settleable
    pool.create_proposal(
        "alice.test".to_string(),
        t,
        "fund wind".to_string(),
        "turbines".to_string(),
        2,
        "builder.test".to_string(),
        0,
        0,
        1,
    )
    .unwrap();
    pool.add_vote("alice.test".to_string(), t + SEC, "fund wind".to_string(), 1).unwrap();
    pool.add_vote("bob.test".to_string(), t + SEC, "fund wind".to_string(), 0).unwrap();
    let (msg, action) = pool
        .check_and_send_near("fund wind".to_string(), t + 70_000_000)
        .unwrap();
    assert_eq!(msg, "Proposal refused");
    assert!(action.is_none());
    pool.add_vote("carol.test".to_string(), t + 2 * SEC, "fund wind".to_string(), 1).unwrap();
    let (msg, action) = pool
        .check_and_send_near("fund wind".to_string(), t + 70_000_000)
        .unwrap();
    assert_eq!(msg, "Proposal accepted and amount was sent");
    assert_eq!(
        action,
        Some(RemoteCall::NearTransfer {
            receiver: "builder.test".to_string(),
            amount: 2_000_000_000_000_000_000_000_000,
        })
    );
    assert!(pool.remove_member("alice.test".to_string()));
    assert!(!pool.remove_member("alice.test".to_string()));
    assert_eq!(
        pool.delete_all(&"stranger.test".to_string()),
        Err(OpError::Unauthorized)
    );
    pool.delete_all(&"pool.test".to_string()).unwrap();
    assert_eq!(pool.get_proposals().len(), 0);
}

#[test]
fn energy_dao_roles_and_deadline_gated_votes() {
    let t: u64 = 7_000_000_000_000;
    let mut dao = EnergyDao::new("energydao.test".to_string());
    assert_eq!(
        dao.init(&"stranger.test".to_string()),
        Err(OpError::Unauthorized)
    );
    dao.init(&"energydao.test".to_string()).unwrap();
    dao.add_council("energydao.test".to_string(), "council.test".to_string()).unwrap();
    dao.add_community("fan.test".to_string());
    assert_eq!(
        dao.get_councils(),
        vec!["energydao.test".to_string(), "council.test".to_string()]
    );
    assert_eq!(dao.get_communities(), vec!["fan.test".to_string()]);
    assert!(dao.check_member("fan.test".to_string()));
    assert!(!dao.check_council("fan.test".to_string()));
    assert!(dao.check_council("council.test".to_string()));
    assert_eq!(
        dao.add_council("fan.test".to_string(), "x.test".to_string()),
        Err(OpError::Unauthorized)
    );
    assert_eq!(
        dao.create_proposal(
            "fan.test".to_string(),
            t,
            0,
            "plant".to_string(),
            "a tree".to_string(),
            3,
            0,
            0,
            1,
        ),
        Err(OpError::Unauthorized)
    );
    dao.create_proposal(
        "council.test".to_string(),
        t,
        0,
        "plant".to_string(),
        "a tree".to_string(),
        3,
        0,
        0,
        1,
    )
    .unwrap();
    // this variant resolves one minute to sixty seconds of the nanosecond clock
    let p = dao.get_specific_proposal("plant".to_string()).unwrap();
    assert_eq!(p.end_time(), t + 60_000_000_000);
    assert_eq!(
        dao.add_vote("stranger.test".to_string(), t + SEC, "plant".to_string(), 1),
        Err(OpError::Unauthorized)
    );
    dao.add_vote("fan.test".to_string(), t + SEC, "plant".to_string(), 1).unwrap();
    assert_eq!(
        dao.add_vote("council.test".to_string(), t + 61 * SEC, "plant".to_string(), 1),
        Err(OpError::ProposalExpired)
    );
    assert_eq!(
        dao.check_the_proposal("plant".to_string(), t + 61 * SEC).unwrap(),
        "Proposal accepted"
    );
    assert_eq!(
        dao.check_the_proposal("plant".to_string(), t + SEC).unwrap(),
        "Proposal refused"
    );
    let funding = dao.fund(&"lts.test".to_string(), "fan.test".to_string(), 3).unwrap();
    assert_eq!(
        funding,
        RemoteCall::FtTransfer {
            token: "lts.test".to_string(),
            receiver: "fan.test".to_string(),
            amount: 300_000_000,
            memo: "".to_string(),
        }
    );
    assert_eq!(
        dao.fund(&"lts.test".to_string(), "fan.test".to_string(), u128::MAX),
        Err(OpError::Overflow)
    );
    dao.delete_all(&"energydao.test".to_string()).unwrap();
    assert!(!dao.check_member("fan.test".to_string()));
}
