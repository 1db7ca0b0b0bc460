use vstd::prelude::*;

verus! {

/// Why an operation on the voting registry was rejected.
#[derive(Clone, Copy, Debug, PartialEq, Eq, Structural)]
pub enum VoteError {
    /// A candidate with this id is already registered.
    DuplicateCandidate,
    /// A voter with this id is already registered.
    DuplicateVoter,
    /// Voting has been closed; no more ballots are accepted.
    VotingClosed,
    /// No voter with this id is registered.
    UnknownVoter,
    /// This voter has already cast a ballot.
    AlreadyVoted,
    /// No candidate with this id is registered.
    UnknownCandidate,
}

/// The human-readable text reported for each error.
pub open spec fn error_text(e: VoteError) -> Seq<char> {
    match e {
        VoteError::DuplicateCandidate => "Candidate already exists"@,
        VoteError::DuplicateVoter => "Voter already registered"@,
        VoteError::VotingClosed => "Voting is no longer active"@,
        VoteError::UnknownVoter => "Voter not registered"@,
        VoteError::AlreadyVoted => "Voter has already cast a vote"@,
        VoteError::UnknownCandidate => "Candidate does not exist"@,
    }
}

impl VoteError {
    /// The message shown to a client whose request was rejected.
    pub fn message(&self) -> (r: String)
        ensures
            r@ == error_text(*self),
    {
        let text: &str = match self {
            VoteError::DuplicateCandidate => "Candidate already exists",
            VoteError::DuplicateVoter => "Voter already registered",
            VoteError::VotingClosed => "Voting is no longer active",
            VoteError::UnknownVoter => "Voter not registered",
            VoteError::AlreadyVoted => "Voter has already cast a vote",
            VoteError::UnknownCandidate => "Candidate does not exist",
        };
        text.to_owned()
    }
}

} // verus!
