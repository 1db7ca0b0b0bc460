use vstd::prelude::*;

use crate::error::VoteError;

verus! {

/// Abstract value of a candidate: its id, display name and number of votes.
pub struct CandidateView {
    pub id: Seq<char>,
    pub name: Seq<char>,
    pub vote_count: nat,
}

/// Abstract value of a voter: its id, whether it has voted and for whom.
pub struct VoterView {
    pub id: Seq<char>,
    pub voted: bool,
    pub vote: Option<Seq<char>>,
}

/// Abstract value of the whole registry. Candidates and voters are kept in
/// the order in which they were registered.
pub struct VotingModel {
    pub candidates: Seq<CandidateView>,
    pub voters: Seq<VoterView>,
    pub is_active: bool,
}

pub open spec fn has_candidate(cs: Seq<CandidateView>, id: Seq<char>) -> bool {
    exists|i: int| 0 <= i < cs.len() && (#[trigger] cs[i]).id == id
}

/// The position of the candidate with the given id (meaningful when it exists).
pub open spec fn candidate_index(cs: Seq<CandidateView>, id: Seq<char>) -> int {
    choose|i: int| 0 <= i < cs.len() && (#[trigger] cs[i]).id == id
}

pub open spec fn has_voter(vs: Seq<VoterView>, id: Seq<char>) -> bool {
    exists|i: int| 0 <= i < vs.len() && (#[trigger] vs[i]).id == id
}

/// The position of the voter with the given id (meaningful when it exists).
pub open spec fn voter_index(vs: Seq<VoterView>, id: Seq<char>) -> int {
    choose|i: int| 0 <= i < vs.len() && (#[trigger] vs[i]).id == id
}

pub open spec fn candidate_ids_unique(cs: Seq<CandidateView>) -> bool {
    forall|i: int, j: int|
        0 <= i < cs.len() && 0 <= j < cs.len() && (#[trigger] cs[i]).id == (#[trigger] cs[j]).id
            ==> i == j
}

pub open spec fn voter_ids_unique(vs: Seq<VoterView>) -> bool {
    forall|i: int, j: int|
        0 <= i < vs.len() && 0 <= j < vs.len() && (#[trigger] vs[i]).id == (#[trigger] vs[j]).id
            ==> i == j
}

/// Sum of the vote counts of all candidates.
pub open spec fn total_votes(cs: Seq<CandidateView>) -> nat
    decreases cs.len(),
{
    if cs.len() == 0 {
        0
    } else {
        total_votes(cs.drop_last()) + cs.last().vote_count
    }
}

/// Number of voters that have cast a ballot.
pub open spec fn ballots_cast(vs: Seq<VoterView>) -> nat
    decreases vs.len(),
{
    if vs.len() == 0 {
        0
    } else {
        ballots_cast(vs.drop_last()) + if vs.last().voted {
            1nat
        } else {
            0nat
        }
    }
}

/// One state-changing operation on the registry.
pub enum Op {
    AddCandidate { id: Seq<char>, name: Seq<char> },
    RegisterVoter { id: Seq<char> },
    CastVote { voter_id: Seq<char>, candidate_id: Seq<char> },
    EndVoting,
}

impl VotingModel {
    /// The registry as it is created: empty and open for voting.
    pub open spec fn initial() -> VotingModel {
        VotingModel { candidates: Seq::empty(), voters: Seq::empty(), is_active: true }
    }

    /// Consistency of the registry: ids are unique, a voter holds a choice
    /// exactly when it has voted and that choice names a candidate, and the
    /// vote counts add up to the number of ballots cast.
    pub open spec fn wf(self) -> bool {
        &&& candidate_ids_unique(self.candidates)
        &&& voter_ids_unique(self.voters)
        &&& forall|i: int|
            0 <= i < self.voters.len() ==> ((#[trigger] self.voters[i]).voted
                <==> self.voters[i].vote is Some)
        &&& forall|i: int|
            0 <= i < self.voters.len() && (#[trigger] self.voters[i]).vote is Some
                ==> has_candidate(self.candidates, self.voters[i].vote->0)
        &&& total_votes(self.candidates) == ballots_cast(self.voters)
    }

    pub open spec fn add_candidate_result(self, id: Seq<char>) -> Result<(), VoteError> {
        if has_candidate(self.candidates, id) {
            Err(VoteError::DuplicateCandidate)
        } else {
            Ok(())
        }
    }

    pub open spec fn after_add_candidate(self, id: Seq<char>, name: Seq<char>) -> VotingModel {
        if has_candidate(self.candidates, id) {
            self
        } else {
            VotingModel {
                candidates: self.candidates.push(CandidateView { id, name, vote_count: 0 }),
                voters: self.voters,
                is_active: self.is_active,
            }
        }
    }

    pub open spec fn register_voter_result(self, id: Seq<char>) -> Result<(), VoteError> {
        if has_voter(self.voters, id) {
            Err(VoteError::DuplicateVoter)
        } else {
            Ok(())
        }
    }

    pub open spec fn after_register_voter(self, id: Seq<char>) -> VotingModel {
        if has_voter(self.voters, id) {
            self
        } else {
            VotingModel {
                candidates: self.candidates,
                voters: self.voters.push(VoterView { id, voted: false, vote: None }),
                is_active: self.is_active,
            }
        }
    }

    /// The outcome of a ballot; the checks are made in this order.
    pub open spec fn cast_vote_result(self, voter_id: Seq<char>, candidate_id: Seq<char>) -> Result<
        (),
        VoteError,
    > {
        if !self.is_active {
            Err(VoteError::VotingClosed)
        } else if !has_voter(self.voters, voter_id) {
            Err(VoteError::UnknownVoter)
        } else if self.voters[voter_index(self.voters, voter_id)].voted {
            Err(VoteError::AlreadyVoted)
        } else if !has_candidate(self.candidates, candidate_id) {
            Err(VoteError::UnknownCandidate)
        } else {
            Ok(())
        }
    }

    /// A successful ballot marks the voter with its choice and adds one vote
    /// to the chosen candidate; a rejected one changes nothing.
    pub open spec fn after_cast_vote(self, voter_id: Seq<char>, candidate_id: Seq<char>) -> VotingModel {
        if self.cast_vote_result(voter_id, candidate_id) is Ok {
            let vi = voter_index(self.voters, voter_id);
            let ci = candidate_index(self.candidates, candidate_id);
            let v = self.voters[vi];
            let c = self.candidates[ci];
            VotingModel {
                candidates: self.candidates.update(
                    ci,
                    CandidateView { id: c.id, name: c.name, vote_count: c.vote_count + 1 },
                ),
                voters: self.voters.update(
                    vi,
                    VoterView { id: v.id, voted: true, vote: Some(candidate_id) },
                ),
                is_active: self.is_active,
            }
        } else {
            self
        }
    }

    pub open spec fn after_end_voting(self) -> VotingModel {
        VotingModel { candidates: self.candidates, voters: self.voters, is_active: false }
    }

    pub open spec fn apply(self, op: Op) -> VotingModel {
        match op {
            Op::AddCandidate { id, name } => self.after_add_candidate(id, name),
            Op::RegisterVoter { id } => self.after_register_voter(id),
            Op::CastVote { voter_id, candidate_id } => self.after_cast_vote(voter_id, candidate_id),
            Op::EndVoting => self.after_end_voting(),
        }
    }

    /// The registry after performing `ops` in order.
    pub open spec fn run(self, ops: Seq<Op>) -> VotingModel
        decreases ops.len(),
    {
        if ops.len() == 0 {
            self
        } else {
            self.run(ops.drop_last()).apply(ops.last())
        }
    }
}

proof fn lemma_total_votes_update(cs: Seq<CandidateView>, i: int, c: CandidateView)
    requires
        0 <= i < cs.len(),
    ensures
        total_votes(cs.update(i, c)) == total_votes(cs) - cs[i].vote_count + c.vote_count,
        cs[i].vote_count <= total_votes(cs),
    decreases cs.len(),
{
    if i == cs.len() - 1 {
        assert(cs.update(i, c).drop_last() =~= cs.drop_last());
    } else {
        lemma_total_votes_update(cs.drop_last(), i, c);
        assert(cs.update(i, c).drop_last() =~= cs.drop_last().update(i, c));
    }
}

proof fn lemma_ballots_update(vs: Seq<VoterView>, i: int, v: VoterView)
    requires
        0 <= i < vs.len(),
    ensures
        ballots_cast(vs.update(i, v)) + (if vs[i].voted {
            1int
        } else {
            0int
        }) == ballots_cast(vs) + (if v.voted {
            1int
        } else {
            0int
        }),
        ballots_cast(vs) <= vs.len(),
    decreases vs.len(),
{
    if i == vs.len() - 1 {
        assert(vs.update(i, v).drop_last() =~= vs.drop_last());
        lemma_ballots_le_len(vs.drop_last());
    } else {
        lemma_ballots_update(vs.drop_last(), i, v);
        assert(vs.update(i, v).drop_last() =~= vs.drop_last().update(i, v));
    }
}

proof fn lemma_ballots_le_len(vs: Seq<VoterView>)
    ensures
        ballots_cast(vs) <= vs.len(),
    decreases vs.len(),
{
    if vs.len() > 0 {
        lemma_ballots_le_len(vs.drop_last());
    }
}

pub proof fn lemma_initial_wf()
    ensures
        VotingModel::initial().wf(),
{
}

pub proof fn lemma_add_candidate_keeps_wf(s: VotingModel, id: Seq<char>, name: Seq<char>)
    requires
        s.wf(),
    ensures
        s.after_add_candidate(id, name).wf(),
{
    if !has_candidate(s.candidates, id) {
        let t = s.after_add_candidate(id, name);
        let c = CandidateView { id, name, vote_count: 0 };
        assert(t.candidates.drop_last() =~= s.candidates);
        assert forall|i: int|
            0 <= i < t.voters.len() && (#[trigger] t.voters[i]).vote is Some implies has_candidate(
            t.candidates,
            t.voters[i].vote->0,
        ) by {
            let k = choose|k: int|
                0 <= k < s.candidates.len() && (#[trigger] s.candidates[k]).id
                    == s.voters[i].vote->0;
            assert(t.candidates[k] == s.candidates[k]);
        }
    }
}

pub proof fn lemma_register_voter_keeps_wf(s: VotingModel, id: Seq<char>)
    requires
        s.wf(),
    ensures
        s.after_register_voter(id).wf(),
{
    if !has_voter(s.voters, id) {
        let t = s.after_register_voter(id);
        assert(t.voters.drop_last() =~= s.voters);
    }
}

/// A successful ballot keeps the registry consistent; the count it raises
/// stays within the number of registered voters.
pub proof fn lemma_cast_vote_keeps_wf(s: VotingModel, voter_id: Seq<char>, candidate_id: Seq<char>)
    requires
        s.wf(),
    ensures
        s.after_cast_vote(voter_id, candidate_id).wf(),
        s.cast_vote_result(voter_id, candidate_id) is Ok ==> {
            let ci = candidate_index(s.candidates, candidate_id);
            let vi = voter_index(s.voters, voter_id);
            &&& 0 <= ci < s.candidates.len()
            &&& s.candidates[ci].id == candidate_id
            &&& 0 <= vi < s.voters.len()
            &&& s.voters[vi].id == voter_id
            &&& s.candidates[ci].vote_count + 1 <= s.voters.len()
        },
{
    if s.cast_vote_result(voter_id, candidate_id) is Ok {
        let vi = voter_index(s.voters, voter_id);
        let ci = candidate_index(s.candidates, candidate_id);
        let v = s.voters[vi];
        let c = s.candidates[ci];
        let nc = CandidateView { id: c.id, name: c.name, vote_count: c.vote_count + 1 };
        let nv = VoterView { id: v.id, voted: true, vote: Some(candidate_id) };
        let t = s.after_cast_vote(voter_id, candidate_id);
        lemma_total_votes_update(s.candidates, ci, nc);
        lemma_ballots_update(s.voters, vi, nv);
        lemma_ballots_le_len(s.voters.update(vi, nv));
        assert(t.candidates == s.candidates.update(ci, nc));
        assert(t.voters == s.voters.update(vi, nv));
        assert forall|i: int|
            0 <= i < t.voters.len() && (#[trigger] t.voters[i]).vote is Some implies has_candidate(
            t.candidates,
            t.voters[i].vote->0,
        ) by {
            if i == vi {
                assert(t.candidates[ci].id == candidate_id);
            } else {
                let k = choose|k: int|
                    0 <= k < s.candidates.len() && (#[trigger] s.candidates[k]).id
                        == s.voters[i].vote->0;
                assert(t.candidates[k].id == s.candidates[k].id);
            }
        }
        assert(candidate_ids_unique(t.candidates)) by {
            assert forall|i: int, j: int|
                0 <= i < t.candidates.len() && 0 <= j < t.candidates.len() && (#[trigger] t.candidates[i]).id
                    == (#[trigger] t.candidates[j]).id implies i == j by {
                assert(t.candidates[i].id == s.candidates[i].id);
                assert(t.candidates[j].id == s.candidates[j].id);
            }
        }
        assert(voter_ids_unique(t.voters)) by {
            assert forall|i: int, j: int|
                0 <= i < t.voters.len() && 0 <= j < t.voters.len() && (#[trigger] t.voters[i]).id
                    == (#[trigger] t.voters[j]).id implies i == j by {
                assert(t.voters[i].id == s.voters[i].id);
                assert(t.voters[j].id == s.voters[j].id);
            }
        }
    }
}

pub proof fn lemma_end_voting_keeps_wf(s: VotingModel)
    requires
        s.wf(),
    ensures
        s.after_end_voting().wf(),
{
}

pub proof fn lemma_apply_keeps_wf(s: VotingModel, op: Op)
    requires
        s.wf(),
    ensures
        s.apply(op).wf(),
{
    match op {
        Op::AddCandidate { id, name } => lemma_add_candidate_keeps_wf(s, id, name),
        Op::RegisterVoter { id } => lemma_register_voter_keeps_wf(s, id),
        Op::CastVote { voter_id, candidate_id } => lemma_cast_vote_keeps_wf(
            s,
            voter_id,
            candidate_id,
        ),
        Op::EndVoting => lemma_end_voting_keeps_wf(s),
    }
}

} // verus!
