use xen_dao_voting::errors::ErrorCode;
use xen_dao_voting::ops;
use xen_dao_voting::registry::Registry;
use xen_dao_voting::state::{Dao, Identity, Proposal};

fn ident(tag: u8) -> Identity {
    Identity { bytes: [tag; 32] }
}

#[test]
fn initialize_is_idempotent() {
    let mut registry = Registry::new();
    let admin = ident(1);
    assert_eq!(registry.initialize(&admin, b"Alpha".to_vec()), Ok(()));
    let other = ident(2);
    // A second initialize succeeds but leaves the original record unchanged.
    assert_eq!(registry.initialize(&other, b"Beta".to_vec()), Ok(()));
    let dao = registry.get().expect("organization must exist");
    assert_eq!(dao.name, b"Alpha".to_vec());
    assert_eq!(dao.authority, admin);
    assert_eq!(dao.proposal_count, 0);
    assert_eq!(dao.total_points, 0);
}

#[test]
fn initialize_accepts_name_of_32_bytes() {
    let mut registry = Registry::new();
    let admin = ident(1);
    assert_eq!(registry.initialize(&admin, vec![b'x'; 32]), Ok(()));
    assert!(registry.get().is_some());
}

#[test]
fn initialize_rejects_name_of_33_bytes() {
    let mut registry = Registry::new();
    let admin = ident(1);
    assert_eq!(
        registry.initialize(&admin, vec![b'x'; 33]),
        Err(ErrorCode::NameTooLong)
    );
    // No record was created.
    assert!(registry.get().is_none());
}

#[test]
fn proposal_count_tracks_creations() {
    let mut registry = Registry::new();
    let admin = ident(1);
    registry.initialize(&admin, b"Alpha".to_vec()).unwrap();
    for n in 0..3u8 {
        let id = registry
            .create_proposal(&admin, format!("proposal {}", n).into_bytes())
            .expect("creation by the administrator must succeed");
        // The n-th creation takes ordinal n - 1 counting from one.
        assert_eq!(id, n);
    }
    let dao = registry.get().unwrap();
    assert_eq!(dao.proposal_count, 3);
    let last = registry.get_proposal(2).expect("live proposal");
    assert_eq!(last.id, 2);
    assert_eq!(last.description, b"proposal 2".to_vec());
    assert!(last.is_active);
    assert_eq!(last.creator, admin);
}

#[test]
fn create_proposal_requires_administrator() {
    let mut registry = Registry::new();
    let admin = ident(1);
    let intruder = ident(2);
    registry.initialize(&admin, b"Alpha".to_vec()).unwrap();
    assert_eq!(
        registry.create_proposal(&intruder, b"takeover".to_vec()),
        Err(ErrorCode::Unauthorized)
    );
    // The failed call did not advance the counter.
    assert_eq!(registry.get().unwrap().proposal_count, 0);
}

#[test]
fn create_proposal_without_organization_is_unauthorized() {
    let mut registry = Registry::new();
    let caller = ident(1);
    assert_eq!(
        registry.create_proposal(&caller, b"premature".to_vec()),
        Err(ErrorCode::Unauthorized)
    );
}

#[test]
fn create_proposal_rejects_description_of_257_bytes() {
    let mut registry = Registry::new();
    let admin = ident(1);
    registry.initialize(&admin, b"Alpha".to_vec()).unwrap();
    assert_eq!(
        registry.create_proposal(&admin, vec![b'd'; 257]),
        Err(ErrorCode::DescriptionTooLong)
    );
    assert_eq!(registry.get().unwrap().proposal_count, 0);
    // A description of exactly 256 bytes is accepted.
    assert_eq!(registry.create_proposal(&admin, vec![b'd'; 256]), Ok(0));
}

#[test]
fn proposal_counter_is_exhausted_at_255() {
    let mut registry = Registry::new();
    let admin = ident(1);
    registry.initialize(&admin, b"Alpha".to_vec()).unwrap();
    for n in 0..255u16 {
        assert_eq!(
            registry.create_proposal(&admin, b"p".to_vec()),
            Ok(n as u8)
        );
    }
    assert_eq!(registry.get().unwrap().proposal_count, 255);
    // The 256th creation would overflow the one-byte counter.
    assert_eq!(
        registry.create_proposal(&admin, b"p".to_vec()),
        Err(ErrorCode::ProposalLimitReached)
    );
    assert_eq!(registry.get().unwrap().proposal_count, 255);
}

#[test]
fn same_identity_votes_only_once() {
    let mut registry = Registry::new();
    let admin = ident(1);
    let voter = ident(2);
    registry.initialize(&admin, b"Alpha".to_vec()).unwrap();
    registry.create_proposal(&admin, b"question".to_vec()).unwrap();
    assert_eq!(registry.vote(&voter, 0, true), Ok(()));
    {
        let proposal = registry.get_proposal(0).unwrap();
        assert_eq!(proposal.yes_votes, 1);
        assert_eq!(proposal.no_votes, 0);
    }
    // The second vote, with either choice, is rejected and changes nothing.
    assert_eq!(registry.vote(&voter, 0, false), Err(ErrorCode::AlreadyVoted));
    let proposal = registry.get_proposal(0).unwrap();
    assert_eq!(proposal.yes_votes, 1);
    assert_eq!(proposal.no_votes, 0);
    assert_eq!(proposal.voters, vec![voter]);
    assert_eq!(registry.get().unwrap().total_points, 1);
}

#[test]
fn voting_on_closed_proposal_is_not_active() {
    let mut registry = Registry::new();
    let admin = ident(1);
    let voter = ident(2);
    registry.initialize(&admin, b"Alpha".to_vec()).unwrap();
    registry.create_proposal(&admin, b"question".to_vec()).unwrap();
    registry.close_proposal(0).unwrap();
    assert_eq!(
        registry.vote(&voter, 0, true),
        Err(ErrorCode::ProposalNotActive)
    );
}

#[test]
fn voting_on_unknown_ordinal_is_not_active() {
    let mut registry = Registry::new();
    let admin = ident(1);
    registry.initialize(&admin, b"Alpha".to_vec()).unwrap();
    assert_eq!(
        registry.vote(&admin, 7, true),
        Err(ErrorCode::ProposalNotActive)
    );
}

#[test]
fn closing_twice_fails_as_already_closed() {
    let mut registry = Registry::new();
    let admin = ident(1);
    registry.initialize(&admin, b"Alpha".to_vec()).unwrap();
    registry.create_proposal(&admin, b"question".to_vec()).unwrap();
    assert_eq!(registry.close_proposal(0), Ok(()));
    // The record was destroyed: closing it again fails.
    assert_eq!(
        registry.close_proposal(0),
        Err(ErrorCode::ProposalAlreadyClosed)
    );
}

#[test]
fn full_lifecycle_of_one_proposal() {
    let mut registry = Registry::new();
    let a = ident(0xa1);
    let b = ident(0xb2);
    let c = ident(0xc3);
    registry.initialize(&a, b"Alpha".to_vec()).unwrap();
    let id = registry.create_proposal(&a, b"Fund X".to_vec()).unwrap();
    assert_eq!(id, 0);
    assert_eq!(registry.vote(&b, id, true), Ok(()));
    assert_eq!(registry.vote(&c, id, false), Ok(()));
    {
        let proposal = registry.get_proposal(id).unwrap();
        assert_eq!(proposal.yes_votes, 1);
        assert_eq!(proposal.no_votes, 1);
        assert_eq!(proposal.voters, vec![b, c]);
        assert!(proposal.is_active);
    }
    assert_eq!(registry.close_proposal(id), Ok(()));
    // After closure the record is no longer retrievable.
    assert!(registry.get_proposal(id).is_none());
    let dao = registry.get().unwrap();
    assert_eq!(dao.total_points, 2);
    assert_eq!(dao.proposal_count, 1);
}

#[test]
fn anyone_may_close_an_active_proposal() {
    // Closure, unlike creation, carries no administrator gate.
    let mut registry = Registry::new();
    let admin = ident(1);
    registry.initialize(&admin, b"Alpha".to_vec()).unwrap();
    registry.create_proposal(&admin, b"question".to_vec()).unwrap();
    // The registry-level closure takes no caller at all; the record-level
    // transition checks only the lifecycle state.
    let mut stray = Proposal {
        id: 0,
        description: b"question".to_vec(),
        yes_votes: 0,
        no_votes: 0,
        is_active: true,
        creator: admin,
        voters: Vec::new(),
    };
    assert_eq!(ops::close_proposal(&mut stray), Ok(()));
    assert!(!stray.is_active);
}

#[test]
fn more_than_ten_distinct_voters_are_accepted() {
    // The in-memory record does not carry the fixed-layout cap of ten
    // voters: an eleventh distinct identity still votes successfully.
    let mut registry = Registry::new();
    let admin = ident(1);
    registry.initialize(&admin, b"Alpha".to_vec()).unwrap();
    registry.create_proposal(&admin, b"popular".to_vec()).unwrap();
    for n in 0..11u8 {
        assert_eq!(registry.vote(&ident(100 + n), 0, true), Ok(()));
    }
    let proposal = registry.get_proposal(0).unwrap();
    assert_eq!(proposal.yes_votes, 11);
    assert_eq!(proposal.voters.len(), 11);
    assert_eq!(registry.get().unwrap().total_points, 11);
}

#[test]
fn tallies_saturate_at_the_top_of_their_range() {
    let mut dao = Dao {
        name: b"Alpha".to_vec(),
        proposal_count: 1,
        total_points: u64::MAX - 1,
        authority: ident(1),
    };
    let mut proposal = Proposal {
        id: 0,
        description: b"old".to_vec(),
        yes_votes: u64::MAX,
        no_votes: 0,
        is_active: true,
        creator: ident(1),
        voters: Vec::new(),
    };
    let first = ident(2);
    assert_eq!(ops::vote(&mut dao, &mut proposal, &first, true), Ok(()));
    assert_eq!(proposal.yes_votes, u64::MAX);
    assert_eq!(dao.total_points, u64::MAX);
    let second = ident(3);
    assert_eq!(ops::vote(&mut dao, &mut proposal, &second, true), Ok(()));
    assert_eq!(proposal.yes_votes, u64::MAX);
    assert_eq!(dao.total_points, u64::MAX);
    assert_eq!(proposal.voters.len(), 2);
}

#[test]
fn vote_on_stale_proposal_reference_is_unauthorized() {
    // A proposal whose ordinal is not below the organization's counter is
    // not recognized as live by that organization.
    let mut dao = Dao {
        name: b"Alpha".to_vec(),
        proposal_count: 3,
        total_points: 0,
        authority: ident(1),
    };
    let mut forged = Proposal {
        id: 5,
        description: b"stale".to_vec(),
        yes_votes: 0,
        no_votes: 0,
        is_active: true,
        creator: ident(1),
        voters: Vec::new(),
    };
    let voter = ident(2);
    assert_eq!(
        ops::vote(&mut dao, &mut forged, &voter, true),
        Err(ErrorCode::Unauthorized)
    );
    assert_eq!(forged.yes_votes, 0);
    assert_eq!(dao.total_points, 0);
}

#[test]
fn record_level_vote_on_inactive_proposal_fails() {
    let mut dao = Dao {
        name: b"Alpha".to_vec(),
        proposal_count: 1,
        total_points: 0,
        authority: ident(1),
    };
    let mut proposal = Proposal {
        id: 0,
        description: b"done".to_vec(),
        yes_votes: 4,
        no_votes: 2,
        is_active: false,
        creator: ident(1),
        voters: Vec::new(),
    };
    let voter = ident(9);
    assert_eq!(
        ops::vote(&mut dao, &mut proposal, &voter, false),
        Err(ErrorCode::ProposalNotActive)
    );
    assert_eq!(proposal.no_votes, 2);
}
