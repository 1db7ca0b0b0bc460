use std::collections::HashMap;

use decentralized_voting::error::VoteError;
use decentralized_voting::system::VotingSystem;

fn tally(s: &VotingSystem) -> HashMap<String, u64> {
    s.get_results().into_iter().collect()
}

fn with_candidates_and_voters(cands: &[(&str, &str)], voters: &[&str]) -> VotingSystem {
    let mut s = VotingSystem::new();
    for (id, name) in cands {
        assert_eq!(s.add_candidate(id.to_string(), name.to_string()), Ok(()));
    }
    for v in voters {
        assert_eq!(s.register_voter(v.to_string()), Ok(()));
    }
    s
}

#[test]
fn new_registry_is_empty() {
    let s = VotingSystem::new();
    assert!(s.get_results().is_empty());
    assert!(s.list_candidates().is_empty());
}

#[test]
fn tally_after_three_ballots() {
    let mut s = with_candidates_and_voters(&[("A", "Alice"), ("B", "Bob")], &["v1", "v2", "v3"]);
    assert_eq!(s.cast_vote("v1".to_string(), "A".to_string()), Ok(()));
    assert_eq!(s.cast_vote("v2".to_string(), "A".to_string()), Ok(()));
    assert_eq!(s.cast_vote("v3".to_string(), "B".to_string()), Ok(()));
    let mut expected = HashMap::new();
    expected.insert("A".to_string(), 2u64);
    expected.insert("B".to_string(), 1u64);
    assert_eq!(tally(&s), expected);
}

#[test]
fn results_follow_registration_order() {
    let mut s = with_candidates_and_voters(&[("A", "Alice"), ("B", "Bob")], &["v1"]);
    assert_eq!(s.cast_vote("v1".to_string(), "B".to_string()), Ok(()));
    assert_eq!(
        s.get_results(),
        vec![("A".to_string(), 0u64), ("B".to_string(), 1u64)]
    );
}

#[test]
fn unknown_candidate_leaves_tally_at_zero() {
    let mut s = with_candidates_and_voters(&[("A", "Alice"), ("B", "Bob")], &["v1"]);
    assert_eq!(
        s.cast_vote("v1".to_string(), "nonexistent".to_string()),
        Err(VoteError::UnknownCandidate)
    );
    assert!(tally(&s).values().all(|c| *c == 0));
    // The voter was not marked: a valid ballot is still accepted.
    assert_eq!(s.cast_vote("v1".to_string(), "A".to_string()), Ok(()));
    assert_eq!(tally(&s)["A"], 1);
}

#[test]
fn duplicate_candidate_keeps_first() {
    let mut s = VotingSystem::new();
    assert_eq!(s.add_candidate("A".to_string(), "Alice".to_string()), Ok(()));
    assert_eq!(
        s.add_candidate("A".to_string(), "Alicia".to_string()),
        Err(VoteError::DuplicateCandidate)
    );
    let list = s.list_candidates();
    assert_eq!(list.len(), 1);
    assert_eq!(list[0].id, "A");
    assert_eq!(list[0].name, "Alice");
    assert_eq!(list[0].vote_count, 0);
}

#[test]
fn duplicate_candidate_keeps_its_votes() {
    let mut s = with_candidates_and_voters(&[("A", "Alice")], &["v1"]);
    assert_eq!(s.cast_vote("v1".to_string(), "A".to_string()), Ok(()));
    assert_eq!(
        s.add_candidate("A".to_string(), "Other".to_string()),
        Err(VoteError::DuplicateCandidate)
    );
    assert_eq!(tally(&s)["A"], 1);
}

#[test]
fn duplicate_voter_rejected() {
    let mut s = VotingSystem::new();
    assert_eq!(s.register_voter("v1".to_string()), Ok(()));
    assert_eq!(s.register_voter("v1".to_string()), Err(VoteError::DuplicateVoter));
}

#[test]
fn duplicate_voter_keeps_ballot() {
    let mut s = with_candidates_and_voters(&[("A", "Alice")], &["v1"]);
    assert_eq!(s.cast_vote("v1".to_string(), "A".to_string()), Ok(()));
    assert_eq!(s.register_voter("v1".to_string()), Err(VoteError::DuplicateVoter));
    assert_eq!(
        s.cast_vote("v1".to_string(), "A".to_string()),
        Err(VoteError::AlreadyVoted)
    );
}

#[test]
fn unknown_voter_rejected() {
    let mut s = with_candidates_and_voters(&[("A", "Alice")], &["v1"]);
    assert_eq!(
        s.cast_vote("ghost".to_string(), "A".to_string()),
        Err(VoteError::UnknownVoter)
    );
    assert_eq!(tally(&s)["A"], 0);
    // Registering that id afterwards works, so nothing was recorded for it.
    assert_eq!(s.register_voter("ghost".to_string()), Ok(()));
    assert_eq!(s.cast_vote("ghost".to_string(), "A".to_string()), Ok(()));
}

#[test]
fn unknown_voter_checked_before_candidate() {
    let mut s = VotingSystem::new();
    assert_eq!(
        s.cast_vote("nobody".to_string(), "nothing".to_string()),
        Err(VoteError::UnknownVoter)
    );
}

#[test]
fn second_ballot_rejected() {
    let mut s = with_candidates_and_voters(&[("A", "Alice"), ("B", "Bob")], &["v1"]);
    assert_eq!(s.cast_vote("v1".to_string(), "A".to_string()), Ok(()));
    assert_eq!(
        s.cast_vote("v1".to_string(), "B".to_string()),
        Err(VoteError::AlreadyVoted)
    );
    assert_eq!(
        s.cast_vote("v1".to_string(), "A".to_string()),
        Err(VoteError::AlreadyVoted)
    );
    let t = tally(&s);
    assert_eq!(t["A"], 1);
    assert_eq!(t["B"], 0);
}

#[test]
fn already_voted_checked_before_candidate() {
    let mut s = with_candidates_and_voters(&[("A", "Alice")], &["v1"]);
    assert_eq!(s.cast_vote("v1".to_string(), "A".to_string()), Ok(()));
    assert_eq!(
        s.cast_vote("v1".to_string(), "nonexistent".to_string()),
        Err(VoteError::AlreadyVoted)
    );
}

#[test]
fn closed_voting_rejects_ballots_but_not_registrations() {
    let mut s = with_candidates_and_voters(&[("A", "Alice")], &["v1"]);
    s.end_voting();
    assert_eq!(
        s.cast_vote("v1".to_string(), "A".to_string()),
        Err(VoteError::VotingClosed)
    );
    assert_eq!(s.add_candidate("B".to_string(), "Bob".to_string()), Ok(()));
    assert_eq!(s.register_voter("v2".to_string()), Ok(()));
    assert_eq!(
        s.cast_vote("v2".to_string(), "B".to_string()),
        Err(VoteError::VotingClosed)
    );
    let t = tally(&s);
    assert_eq!(t["A"], 0);
    assert_eq!(t["B"], 0);
}

#[test]
fn closed_check_comes_first() {
    let mut s = VotingSystem::new();
    s.end_voting();
    assert_eq!(
        s.cast_vote("nobody".to_string(), "nothing".to_string()),
        Err(VoteError::VotingClosed)
    );
}

#[test]
fn end_voting_is_idempotent() {
    let mut s = with_candidates_and_voters(&[("A", "Alice")], &["v1"]);
    assert_eq!(s.cast_vote("v1".to_string(), "A".to_string()), Ok(()));
    s.end_voting();
    s.end_voting();
    assert_eq!(tally(&s)["A"], 1);
    assert_eq!(
        s.cast_vote("v1".to_string(), "A".to_string()),
        Err(VoteError::VotingClosed)
    );
}

#[test]
fn many_distinct_voters_all_counted() {
    let n: u64 = 500;
    let mut s = with_candidates_and_voters(&[("A", "Alice"), ("B", "Bob")], &[]);
    for i in 0..n {
        assert_eq!(s.register_voter(format!("voter{}", i)), Ok(()));
    }
    let shared = std::sync::Mutex::new(s);
    for i in 0..n {
        let mut guard = shared.lock().unwrap();
        assert_eq!(guard.cast_vote(format!("voter{}", i), "A".to_string()), Ok(()));
    }
    let s = shared.into_inner().unwrap();
    let t = tally(&s);
    assert_eq!(t["A"], n);
    assert_eq!(t["B"], 0);
}

#[test]
fn tally_sums_to_ballots_cast() {
    let mut s = with_candidates_and_voters(
        &[("A", "Alice"), ("B", "Bob"), ("C", "Carol")],
        &["v1", "v2", "v3", "v4", "v5"],
    );
    let ballots = [
        ("v1", "A"),
        ("v2", "C"),
        ("v2", "A"),
        ("v3", "X"),
        ("v6", "A"),
        ("v4", "C"),
    ];
    let mut accepted: u64 = 0;
    for (v, c) in ballots {
        if s.cast_vote(v.to_string(), c.to_string()).is_ok() {
            accepted += 1;
        }
    }
    assert_eq!(accepted, 3);
    let sum: u64 = s.get_results().iter().map(|(_, c)| *c).sum();
    assert_eq!(sum, accepted);
}

#[test]
fn list_candidates_reports_counts() {
    let mut s = with_candidates_and_voters(&[("A", "Alice"), ("B", "Bob")], &["v1", "v2"]);
    assert_eq!(s.cast_vote("v1".to_string(), "B".to_string()), Ok(()));
    assert_eq!(s.cast_vote("v2".to_string(), "B".to_string()), Ok(()));
    let list = s.list_candidates();
    assert_eq!(list.len(), 2);
    assert_eq!((list[0].id.as_str(), list[0].name.as_str(), list[0].vote_count), ("A", "Alice", 0));
    assert_eq!((list[1].id.as_str(), list[1].name.as_str(), list[1].vote_count), ("B", "Bob", 2));
}

#[test]
fn error_messages() {
    assert_eq!(VoteError::DuplicateCandidate.message(), "Candidate already exists");
    assert_eq!(VoteError::DuplicateVoter.message(), "Voter already registered");
    assert_eq!(VoteError::VotingClosed.message(), "Voting is no longer active");
    assert_eq!(VoteError::UnknownVoter.message(), "Voter not registered");
    assert_eq!(VoteError::AlreadyVoted.message(), "Voter has already cast a vote");
    assert_eq!(VoteError::UnknownCandidate.message(), "Candidate does not exist");
}
