//! End-to-end tests driving the voting engine the way a host would: the
//! caller's identity and the current logical time are passed in as plain
//! values.

use quadratic_voting::QuadraticVoting;
use quadratic_voting::QuadraticVotingError;

const ADMIN: u64 = 1;
const VOTER: u64 = 2;

fn pairs(list: &[(&str, &str)]) -> Vec<(String, String)> {
    list.iter().map(|(t, d)| (t.to_string(), d.to_string())).collect()
}

/// Happy paths

#[test]
fn test_voter_registration() {
    let mut contract = QuadraticVoting::constructor(ADMIN);

    let email = "test@example.com".to_string();
    let result = contract.register_voter(VOTER, email.clone());
    assert!(result.is_ok());

    let (stored_email, registered) = contract.get_voter(VOTER);
    assert!(registered);
    assert_eq!(stored_email, email);
}

#[test]
fn test_create_session_with_proposals() {
    let mut contract = QuadraticVoting::constructor(ADMIN);

    let name = "Test Session".to_string();
    let description = "A voting session".to_string();
    let credits_per_voter: u8 = 100;
    let duration: u64 = 3600;

    let initial_proposals = pairs(&[
        ("Proposal 1", "Description for proposal 1"),
        ("Proposal 2", "Description for proposal 2"),
        ("Proposal 3", "Description for proposal 3"),
    ]);

    let session_id = contract
        .create_session(
            ADMIN,
            0,
            name.clone(),
            description.clone(),
            credits_per_voter,
            duration,
            initial_proposals.clone(),
        )
        .unwrap();

    // Check session was created
    assert_eq!(session_id, 1);

    let session = contract.get_session(session_id).unwrap();

    assert_eq!(session.0, name);
    assert_eq!(session.1, description);
    assert_eq!(session.4, credits_per_voter);
    assert_eq!(session.5, true); // active
    assert_eq!(session.6, ADMIN); // creator

    // Check proposals were added
    assert_eq!(session.7, 3); // proposal_count should be 3

    // Verify each proposal using bulk query
    let all_proposals = contract.get_session_proposals(session_id).unwrap();
    assert_eq!(all_proposals.len(), initial_proposals.len());

    for (i, (expected_title, expected_desc)) in initial_proposals.iter().enumerate() {
        let (id, title, description, vote_count) = &all_proposals[i];
        assert_eq!(*id, (i + 1) as u8); // id
        assert_eq!(*title, *expected_title); // title
        assert_eq!(*description, *expected_desc); // description
        assert_eq!(*vote_count, 0u64); // vote_count
    }
}

#[test]
fn test_vote_in_session() {
    let mut contract = QuadraticVoting::constructor(ADMIN);

    contract
        .register_voter(VOTER, "voter@example.com".to_string())
        .unwrap();

    let proposals = pairs(&[("Proposal 1", "Desc 1"), ("Proposal 2", "Desc 2")]);
    let session_id = contract
        .create_session(ADMIN, 0, "Test".to_string(), "Desc".to_string(), 100, 3600, proposals)
        .unwrap();

    let proposal1_id: u8 = 1;
    let proposal2_id: u8 = 2;

    // Vote on proposals: 4 + 1 = 5 credits total
    let result = contract.vote(VOTER, 0, session_id, vec![proposal1_id, proposal2_id], vec![2, 1]);
    assert!(result.is_ok());

    // Check proposal vote counts using bulk query
    let all_proposals = contract.get_session_proposals(session_id).unwrap();

    let proposal1 = all_proposals.iter().find(|p| p.0 == proposal1_id).unwrap();
    assert_eq!(proposal1.3, 2u64); // vote_count

    let proposal2 = all_proposals.iter().find(|p| p.0 == proposal2_id).unwrap();
    assert_eq!(proposal2.3, 1u64); // vote_count
}

/// Unhappy paths

#[test]
fn test_create_session_with_no_proposals() {
    let mut contract = QuadraticVoting::constructor(ADMIN);

    let result = contract.create_session(
        ADMIN,
        0,
        "Test Session".to_string(),
        "Description".to_string(),
        100,
        3600,
        vec![], // Empty proposals
    );

    assert!(matches!(result, Err(QuadraticVotingError::InvalidProposalCount)));
}

#[test]
fn test_insufficient_credits() {
    let mut contract = QuadraticVoting::constructor(ADMIN);

    contract
        .register_voter(VOTER, "voter@example.com".to_string())
        .unwrap();

    let session_id = contract
        .create_session(
            ADMIN,
            0,
            "Test".to_string(),
            "Desc".to_string(),
            5,
            3600,
            pairs(&[("Proposal", "Desc")]),
        )
        .unwrap();

    // Try to vote with more credits than available (3² = 9 > 5)
    let result = contract.vote(VOTER, 0, session_id, vec![1], vec![3]);
    assert!(matches!(result, Err(QuadraticVotingError::InsufficientCredits)));
}

#[test]
fn test_session_not_active() {
    let mut contract = QuadraticVoting::constructor(ADMIN);

    contract
        .register_voter(VOTER, "voter@example.com".to_string())
        .unwrap();

    // 1-tick duration: the session ends at time 1
    let session_id = contract
        .create_session(
            ADMIN,
            0,
            "Test".to_string(),
            "Desc".to_string(),
            100,
            1,
            pairs(&[("Proposal", "Desc")]),
        )
        .unwrap();

    // Try to vote on the expired session at time 100
    let result = contract.vote(VOTER, 100, session_id, vec![1], vec![1]);
    assert!(matches!(result, Err(QuadraticVotingError::SessionNotActive)));
}

#[test]
fn test_voter_not_registered() {
    let mut contract = QuadraticVoting::constructor(ADMIN);

    let session_id = contract
        .create_session(
            ADMIN,
            0,
            "Test".to_string(),
            "Desc".to_string(),
            100,
            3600,
            pairs(&[("Proposal", "Desc")]),
        )
        .unwrap();

    let result = contract.vote(VOTER, 0, session_id, vec![1], vec![1]);
    assert!(matches!(result, Err(QuadraticVotingError::VoterNotRegistered)));
}

#[test]
fn test_session_not_found() {
    let contract = QuadraticVoting::constructor(ADMIN);

    let result = contract.get_session(999);
    assert!(matches!(result, Err(QuadraticVotingError::SessionNotFound)));
}

#[test]
fn test_session_results() {
    let mut contract = QuadraticVoting::constructor(ADMIN);

    contract
        .register_voter(VOTER, "voter@example.com".to_string())
        .unwrap();

    let session_id = contract
        .create_session(
            ADMIN,
            0,
            "Test".to_string(),
            "Desc".to_string(),
            100,
            3600,
            pairs(&[("Proposal 1", "Desc 1"), ("Proposal 2", "Desc 2")]),
        )
        .unwrap();

    // Check initial results (no votes yet)
    let results = contract.get_session_results(session_id).unwrap();
    assert_eq!(results.0, 0u8); // winner_id (0 = no winner yet)
    assert_eq!(results.1, 2u8); // proposal_count
    assert_eq!(results.2, 0u64); // max_votes
    assert_eq!(results.3, 0u64); // total_votes

    // Vote on proposals
    contract.vote(VOTER, 0, session_id, vec![1, 2], vec![2, 1]).unwrap();

    // Check results after voting
    let results = contract.get_session_results(session_id).unwrap();
    assert_eq!(results.0, 1u8); // winner_id (proposal 1 has more votes)
    assert_eq!(results.1, 2u8); // proposal_count

    // Check actual proposal data
    let proposals = contract.get_session_proposals(session_id).unwrap();
    let proposal1_votes = proposals[0].3;
    let proposal2_votes = proposals[1].3;

    assert_eq!(proposal1_votes, 2u64); // vote intensity = 2
    assert_eq!(proposal2_votes, 1u64); // vote intensity = 1

    assert_eq!(results.2, 2u64); // max_votes (highest vote intensity)
    assert_eq!(results.3, 3u64); // total_votes (2 + 1)
}

/// The quadratic cost formula and its saturation

#[test]
fn test_quadratic_cost_formula() {
    let contract = QuadraticVoting::constructor(ADMIN);

    assert_eq!(contract.calculate_quadratic_cost(&vec![]), 0);
    assert_eq!(contract.calculate_quadratic_cost(&vec![0]), 0);
    assert_eq!(contract.calculate_quadratic_cost(&vec![2, 1]), 5);
    assert_eq!(contract.calculate_quadratic_cost(&vec![3]), 9);
    assert_eq!(contract.calculate_quadratic_cost(&vec![1, 2, 3, 4]), 30);

    // One weight whose square exceeds u64::MAX saturates the total
    assert_eq!(contract.calculate_quadratic_cost(&vec![1u64 << 32]), u64::MAX);
    // ... and further additions keep it saturated
    assert_eq!(contract.calculate_quadratic_cost(&vec![1u64 << 32, 5]), u64::MAX);
    // The largest square that still fits: (2^32 - 1)²
    let w = (1u64 << 32) - 1;
    assert_eq!(contract.calculate_quadratic_cost(&vec![w]), w * w);
}

/// Credit seeding and debiting

#[test]
fn test_first_vote_seeds_balance() {
    let mut contract = QuadraticVoting::constructor(ADMIN);

    contract
        .register_voter(VOTER, "voter@example.com".to_string())
        .unwrap();

    let session_id = contract
        .create_session(
            ADMIN,
            0,
            "Test".to_string(),
            "Desc".to_string(),
            100,
            3600,
            pairs(&[("Proposal", "Desc")]),
        )
        .unwrap();

    // Before any vote the ledger stores no balance: it reads as zero
    assert_eq!(contract.get_voter_session_credits(session_id, VOTER).unwrap(), 0);

    // The first vote is checked against the full budget and debits its cost
    contract.vote(VOTER, 0, session_id, vec![1], vec![2]).unwrap();
    assert_eq!(contract.get_voter_session_credits(session_id, VOTER).unwrap(), 96);
}

#[test]
fn test_revote_replaces_weight() {
    let mut contract = QuadraticVoting::constructor(ADMIN);

    contract
        .register_voter(VOTER, "voter@example.com".to_string())
        .unwrap();

    let session_id = contract
        .create_session(
            ADMIN,
            0,
            "Test".to_string(),
            "Desc".to_string(),
            100,
            3600,
            pairs(&[("Proposal", "Desc")]),
        )
        .unwrap();

    contract.vote(VOTER, 0, session_id, vec![1], vec![2]).unwrap();
    contract.vote(VOTER, 0, session_id, vec![1], vec![3]).unwrap();

    // The tally holds the latest weight, never the sum
    let (_, _, tally) = contract.get_proposal(session_id, 1).unwrap();
    assert_eq!(tally, 3);
    assert_eq!(contract.get_vote(session_id, VOTER, 1).unwrap(), 3);

    // Each call is charged the full cost of its weight set: 100 - 4 - 9
    assert_eq!(contract.get_voter_session_credits(session_id, VOTER).unwrap(), 87);
}

/// Error paths of `vote` and the read surface

#[test]
fn test_vote_session_not_found() {
    let mut contract = QuadraticVoting::constructor(ADMIN);

    contract
        .register_voter(VOTER, "voter@example.com".to_string())
        .unwrap();

    let result = contract.vote(VOTER, 0, 999, vec![1], vec![1]);
    assert!(matches!(result, Err(QuadraticVotingError::SessionNotFound)));
}

#[test]
fn test_invalid_vote_count() {
    let mut contract = QuadraticVoting::constructor(ADMIN);

    contract
        .register_voter(VOTER, "voter@example.com".to_string())
        .unwrap();

    let session_id = contract
        .create_session(
            ADMIN,
            0,
            "Test".to_string(),
            "Desc".to_string(),
            100,
            3600,
            pairs(&[("Proposal 1", "Desc 1"), ("Proposal 2", "Desc 2")]),
        )
        .unwrap();

    let result = contract.vote(VOTER, 0, session_id, vec![1, 2], vec![1]);
    assert!(matches!(result, Err(QuadraticVotingError::InvalidVoteCount)));

    // Zero state change
    assert_eq!(contract.get_vote(session_id, VOTER, 1).unwrap(), 0);
    assert_eq!(contract.get_vote(session_id, VOTER, 2).unwrap(), 0);
    let (_, _, tally) = contract.get_proposal(session_id, 1).unwrap();
    assert_eq!(tally, 0);
    assert_eq!(contract.get_voter_session_credits(session_id, VOTER).unwrap(), 0);
}

#[test]
fn test_vote_proposal_not_found() {
    let mut contract = QuadraticVoting::constructor(ADMIN);

    contract
        .register_voter(VOTER, "voter@example.com".to_string())
        .unwrap();

    let session_id = contract
        .create_session(
            ADMIN,
            0,
            "Test".to_string(),
            "Desc".to_string(),
            100,
            3600,
            pairs(&[("Proposal", "Desc")]),
        )
        .unwrap();

    // One valid pair and one invalid pair: the whole batch is refused
    let result = contract.vote(VOTER, 0, session_id, vec![1, 99], vec![1, 1]);
    assert!(matches!(result, Err(QuadraticVotingError::ProposalNotFound)));

    // Nothing was applied, not even the valid pair
    let (_, _, tally) = contract.get_proposal(session_id, 1).unwrap();
    assert_eq!(tally, 0);
    assert_eq!(contract.get_vote(session_id, VOTER, 1).unwrap(), 0);
    assert_eq!(contract.get_voter_session_credits(session_id, VOTER).unwrap(), 0);
}

#[test]
fn test_register_twice_unauthorized() {
    let mut contract = QuadraticVoting::constructor(ADMIN);

    contract
        .register_voter(VOTER, "first@example.com".to_string())
        .unwrap();
    let result = contract.register_voter(VOTER, "second@example.com".to_string());
    assert!(matches!(result, Err(QuadraticVotingError::Unauthorized)));

    // The first registration stands
    let (email, registered) = contract.get_voter(VOTER);
    assert!(registered);
    assert_eq!(email, "first@example.com");
}

#[test]
fn test_create_session_unauthorized() {
    let mut contract = QuadraticVoting::constructor(ADMIN);

    let result = contract.create_session(
        VOTER,
        0,
        "Test".to_string(),
        "Desc".to_string(),
        100,
        3600,
        pairs(&[("Proposal", "Desc")]),
    );
    assert!(matches!(result, Err(QuadraticVotingError::Unauthorized)));
    assert_eq!(contract.session_count(), 0);
}

#[test]
fn test_get_proposal_paths() {
    let mut contract = QuadraticVoting::constructor(ADMIN);

    let session_id = contract
        .create_session(
            ADMIN,
            0,
            "Test".to_string(),
            "Desc".to_string(),
            100,
            3600,
            pairs(&[("Proposal 1", "Desc 1")]),
        )
        .unwrap();

    let (title, description, tally) = contract.get_proposal(session_id, 1).unwrap();
    assert_eq!(title, "Proposal 1");
    assert_eq!(description, "Desc 1");
    assert_eq!(tally, 0);

    assert!(matches!(
        contract.get_proposal(999, 1),
        Err(QuadraticVotingError::SessionNotFound)
    ));
    assert!(matches!(
        contract.get_proposal(session_id, 2),
        Err(QuadraticVotingError::ProposalNotFound)
    ));
    assert!(matches!(
        contract.get_proposal(session_id, 0),
        Err(QuadraticVotingError::ProposalNotFound)
    ));
}

#[test]
fn test_get_vote_paths() {
    let mut contract = QuadraticVoting::constructor(ADMIN);

    let session_id = contract
        .create_session(
            ADMIN,
            0,
            "Test".to_string(),
            "Desc".to_string(),
            100,
            3600,
            pairs(&[("Proposal", "Desc")]),
        )
        .unwrap();

    // Never having voted reads as weight zero
    assert_eq!(contract.get_vote(session_id, VOTER, 1).unwrap(), 0);
    assert!(matches!(
        contract.get_vote(999, VOTER, 1),
        Err(QuadraticVotingError::SessionNotFound)
    ));
    assert!(matches!(
        contract.get_voter_session_credits(999, VOTER),
        Err(QuadraticVotingError::SessionNotFound)
    ));
}

#[test]
fn test_get_voter_unknown() {
    let contract = QuadraticVoting::constructor(ADMIN);
    let (email, registered) = contract.get_voter(7);
    assert!(!registered);
    assert_eq!(email, "");
}

#[test]
fn test_is_session_active_windows() {
    let mut contract = QuadraticVoting::constructor(ADMIN);

    let session_id = contract
        .create_session(
            ADMIN,
            10,
            "Test".to_string(),
            "Desc".to_string(),
            100,
            50,
            pairs(&[("Proposal", "Desc")]),
        )
        .unwrap();

    assert!(contract.is_session_active(session_id, 10));
    assert!(contract.is_session_active(session_id, 59));
    assert!(!contract.is_session_active(session_id, 60)); // end time reached
    assert!(!contract.is_session_active(session_id, 1000));
    assert!(!contract.is_session_active(999, 10)); // no such session
}

/// Capacity bounds

#[test]
fn test_session_proposal_capacity() {
    let mut contract = QuadraticVoting::constructor(ADMIN);

    let too_many: Vec<(String, String)> = (0..256)
        .map(|i| (format!("Proposal {}", i), format!("Desc {}", i)))
        .collect();
    let result = contract.create_session(
        ADMIN,
        0,
        "Test".to_string(),
        "Desc".to_string(),
        100,
        3600,
        too_many,
    );
    assert!(matches!(result, Err(QuadraticVotingError::InvalidProposalCount)));
    assert_eq!(contract.session_count(), 0);

    let just_enough: Vec<(String, String)> = (0..255)
        .map(|i| (format!("Proposal {}", i), format!("Desc {}", i)))
        .collect();
    let session_id = contract
        .create_session(
            ADMIN,
            0,
            "Test".to_string(),
            "Desc".to_string(),
            100,
            3600,
            just_enough,
        )
        .unwrap();
    let session = contract.get_session(session_id).unwrap();
    assert_eq!(session.7, 255);
}

#[test]
fn test_proposal_query_cap() {
    let mut contract = QuadraticVoting::constructor(ADMIN);

    let many: Vec<(String, String)> = (0..150)
        .map(|i| (format!("Proposal {}", i), format!("Desc {}", i)))
        .collect();
    let session_id = contract
        .create_session(ADMIN, 0, "Test".to_string(), "Desc".to_string(), 100, 3600, many)
        .unwrap();

    // 150 proposals exist, but the bulk query caps its answer at 100
    let session = contract.get_session(session_id).unwrap();
    assert_eq!(session.7, 150);
    let listed = contract.get_session_proposals(session_id).unwrap();
    assert_eq!(listed.len(), 100);
    assert_eq!(listed[0].0, 1);
    assert_eq!(listed[99].0, 100);
    assert_eq!(listed[42].1, "Proposal 42");
}

/// The full protocol, end to end

#[test]
fn test_end_to_end_round() {
    let mut contract = QuadraticVoting::constructor(ADMIN);

    let session_id = contract
        .create_session(
            ADMIN,
            0,
            "Round".to_string(),
            "A full round".to_string(),
            100,
            3600,
            pairs(&[("P1", "first"), ("P2", "second")]),
        )
        .unwrap();

    contract
        .register_voter(VOTER, "voter@example.com".to_string())
        .unwrap();

    // Vote P1=2, P2=1: cost 2² + 1² = 5
    contract.vote(VOTER, 1, session_id, vec![1, 2], vec![2, 1]).unwrap();
    assert_eq!(contract.get_voter_session_credits(session_id, VOTER).unwrap(), 95);
    let (_, _, tally1) = contract.get_proposal(session_id, 1).unwrap();
    let (_, _, tally2) = contract.get_proposal(session_id, 2).unwrap();
    assert_eq!(tally1, 2);
    assert_eq!(tally2, 1);

    // Revote P1=1, P2=2: the weights are replaced, not accumulated
    contract.vote(VOTER, 2, session_id, vec![1, 2], vec![1, 2]).unwrap();
    let (_, _, tally1) = contract.get_proposal(session_id, 1).unwrap();
    let (_, _, tally2) = contract.get_proposal(session_id, 2).unwrap();
    assert_eq!(tally1, 1);
    assert_eq!(tally2, 2);

    // Each call was charged the full cost of its weight set: 100 - 5 - 5
    assert_eq!(contract.get_voter_session_credits(session_id, VOTER).unwrap(), 90);
}
