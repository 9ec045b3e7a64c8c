use govledger::errors::OpError;
use govledger::organisation::{Dao, MemberProposal, Proposals, RegistrationDao};
use govledger::remote::RemoteCall;

const SEC: u64 = 1_000_000_000;

fn registry_with_dao(t: u64) -> RegistrationDao {
    let mut reg = RegistrationDao::new("registry.test".to_string(), "platform.test".to_string());
    reg.add_dao(
        "platform.test".to_string(),
        "dao1".to_string(),
        "energy".to_string(),
        0,
        0,
        1,
    )
    .unwrap();
    let _ = t;
    reg
}

#[test]
fn add_dao_is_gated_and_rejects_taken_names() {
    let mut reg = RegistrationDao::new("registry.test".to_string(), "platform.test".to_string());
    assert_eq!(
        reg.add_dao(
            "mallory.test".to_string(),
            "dao1".to_string(),
            "energy".to_string(),
            0,
            0,
            1,
        ),
        Err(OpError::Unauthorized)
    );
    reg.add_dao(
        "platform.test".to_string(),
        "dao1".to_string(),
        "energy".to_string(),
        0,
        0,
        1,
    )
    .unwrap();
    assert_eq!(
        reg.add_dao(
            "platform.test".to_string(),
            "dao1".to_string(),
            "again".to_string(),
            0,
            0,
            2,
        ),
        Err(OpError::AlreadyExists)
    );
    assert!(reg.check_existance_dao("dao1".to_string()));
    assert!(!reg.check_existance_dao("dao2".to_string()));
    let dao = reg.get_dao("dao1".to_string()).unwrap();
    assert_eq!(dao.founder, "platform.test");
    assert_eq!(dao.council_members, vec!["platform.test".to_string()]);
    assert_eq!(dao.numb_council_members, 1);
    assert_eq!(reg.get_all_daos().len(), 1);
}

#[test]
fn registry_scoped_proposals_and_votes() {
    let t: u64 = 3_000_000_000_000;
    let mut reg = registry_with_dao(t);
    reg.create_proposal(
        "founder.test".to_string(),
        t,
        "dao1".to_string(),
        0,
        "lights".to_string(),
        "buy lights".to_string(),
    )
    .unwrap();
    assert_eq!(
        reg.create_proposal(
            "founder.test".to_string(),
            t,
            "ghostdao".to_string(),
            0,
            "lights".to_string(),
            "buy lights".to_string(),
        ),
        Err(OpError::NotFound)
    );
    assert_eq!(
        reg.create_proposal(
            "founder.test".to_string(),
            t,
            "dao1".to_string(),
            0,
            "lights".to_string(),
            "again".to_string(),
        ),
        Err(OpError::AlreadyExists)
    );
    assert_eq!(reg.get_end_time("dao1".to_string(), "lights".to_string()), Ok(t + 60_000_000));
    reg.add_vote("a.test".to_string(), t + SEC, "dao1".to_string(), "lights".to_string(), 1)
        .unwrap();
    reg.add_vote("b.test".to_string(), t + SEC, "dao1".to_string(), "lights".to_string(), 0)
        .unwrap();
    assert_eq!(
        reg.add_vote("a.test".to_string(), t + SEC, "dao1".to_string(), "lights".to_string(), 1),
        Err(OpError::DuplicateVote)
    );
    assert_eq!(reg.get_votes_for("dao1".to_string(), "lights".to_string()), Ok(1));
    assert_eq!(reg.get_votes_against("dao1".to_string(), "lights".to_string()), Ok(1));
    assert_eq!(reg.get_number_votes("dao1".to_string(), "lights".to_string()), Ok(2));
    assert_eq!(
        reg.check_the_proposal("dao1".to_string(), "lights".to_string(), t + 70_000_000)
            .unwrap(),
        "Proposal refused"
    );
    reg.add_vote("c.test".to_string(), t + 2 * SEC, "dao1".to_string(), "lights".to_string(), 1)
        .unwrap();
    assert_eq!(
        reg.check_the_proposal("dao1".to_string(), "lights".to_string(), t + 70_000_000)
            .unwrap(),
        "Proposal accepted"
    );
    assert_eq!(reg.get_all_proposals("dao1".to_string()).unwrap().len(), 1);
    let p = reg.get_proposal("dao1".to_string(), "lights".to_string()).unwrap();
    assert_eq!(p.proposal_creator, "founder.test");
}

#[test]
fn registry_member_proposals_and_enrolment() {
    let t: u64 = 3_000_000_000_000;
    let mut reg = registry_with_dao(t);
    reg.create_member_proposal(
        "founder.test".to_string(),
        t,
        "dao1".to_string(),
        "newbie.test".to_string(),
        "add newbie".to_string(),
        "a second council seat".to_string(),
    )
    .unwrap();
    reg.add_member_vote(
        "a.test".to_string(),
        t + SEC,
        "dao1".to_string(),
        "add newbie".to_string(),
        1,
    )
    .unwrap();
    assert_eq!(
        reg.add_member_vote(
            "a.test".to_string(),
            t + SEC,
            "dao1".to_string(),
            "add newbie".to_string(),
            1,
        ),
        Err(OpError::DuplicateVote)
    );
    assert_eq!(
        reg.get_member_votes_for("dao1".to_string(), "add newbie".to_string()),
        Ok(1)
    );
    assert_eq!(
        reg.get_member_votes_against("dao1".to_string(), "add newbie".to_string()),
        Ok(0)
    );
    assert_eq!(
        reg.get_number_member_votes("dao1".to_string(), "add newbie".to_string()),
        Ok(1)
    );
    assert_eq!(
        reg.get_end_time_member("dao1".to_string(), "add newbie".to_string()),
        Ok(t + 60_000_000)
    );
    assert_eq!(
        reg.check_the_member_proposal("dao1".to_string(), "add newbie".to_string(), t + 70_000_000)
            .unwrap(),
        "Proposal accepted"
    );
    assert_eq!(reg.get_all_member_proposals("dao1".to_string()).unwrap().len(), 1);
    reg.process_member_proposal("dao1".to_string(), "newbie.test".to_string()).unwrap();
    reg.add_community_member("dao1".to_string(), "fan.test".to_string()).unwrap();
    let dao = reg.get_dao("dao1".to_string()).unwrap();
    assert_eq!(dao.numb_council_members, 2);
    assert_eq!(dao.council_members[1], "newbie.test");
    assert_eq!(dao.numb_community_members, 1);
    assert_eq!(dao.community_members, vec!["fan.test".to_string()]);
}

#[test]
fn registry_requests_and_deletion() {
    let t: u64 = 3_000_000_000_000;
    let mut reg = registry_with_dao(t);
    let ask = reg.request_dao(
        &"platformdao.test".to_string(),
        0,
        "wind dao".to_string(),
        "a dao for wind".to_string(),
        "dao2".to_string(),
        "wind".to_string(),
        0,
        1,
        0,
    );
    assert_eq!(
        ask,
        RemoteCall::CreateRegistrationProposal {
            platform: "platformdao.test".to_string(),
            proposal_type: 0,
            proposal_name: "wind dao".to_string(),
            description: "a dao for wind".to_string(),
            dao_name: "dao2".to_string(),
            dao_purpose: "wind".to_string(),
            duration_days: 0,
            duration_hours: 1,
            duration_min: 0,
        }
    );
    assert_eq!(
        reg.delete(&"mallory.test".to_string(), "dao1".to_string()),
        Err(OpError::Unauthorized)
    );
    assert_eq!(
        reg.delete(&"platform.test".to_string(), "ghostdao".to_string()),
        Err(OpError::NotFound)
    );
    reg.delete(&"platform.test".to_string(), "dao1".to_string()).unwrap();
    assert!(!reg.check_existance_dao("dao1".to_string()));
    let mut reg = registry_with_dao(t);
    assert_eq!(
        reg.delete_all(&"platform.test".to_string()),
        Err(OpError::Unauthorized)
    );
    reg.delete_all(&"registry.test".to_string()).unwrap();
    assert_eq!(reg.get_all_daos().len(), 0);
}

#[test]
fn dao_owns_its_proposals() {
    let t: u64 = 3_000_000_000_000;
    let mut dao = Dao::new();
    dao.duration_min = 1;
    dao.create_proposal(
        "founder.test".to_string(),
        t,
        0,
        "lights".to_string(),
        "buy lights".to_string(),
    )
    .unwrap();
    let mut p = dao.get_specific_proposal("lights".to_string()).unwrap();
    assert_eq!(p.end_time(), t + 60_000_000);
    p.create_vote("a.test".to_string(), t + SEC, 1).unwrap();
    assert_eq!(
        p.create_vote("a.test".to_string(), t + SEC, 1),
        Err(OpError::DuplicateVote)
    );
    assert!(!p.check_proposal(t + 1_000_000));
    assert!(p.check_proposal(t + 70_000_000));
    dao.replace_proposal(p).unwrap();
    assert_eq!(dao.get_proposals()[0].tally.votes_for, 1);
    dao.create_member_proposal(
        "founder.test".to_string(),
        t,
        "seat".to_string(),
        "newbie.test".to_string(),
        "a seat".to_string(),
    )
    .unwrap();
    let mut mp = dao.get_specific_member_proposal("seat".to_string()).unwrap();
    mp.create_vote("a.test".to_string(), t + SEC, 0).unwrap();
    dao.replace_member_proposal(mp).unwrap();
    assert_eq!(dao.get_member_proposals()[0].tally.votes_against, 1);
    let fresh = MemberProposal::new();
    assert_eq!(fresh.beneficiary, "");
    let fresh = Proposals::new();
    assert_eq!(fresh.proposal_type, 0);
}
