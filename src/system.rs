use vstd::prelude::*;

use crate::error::VoteError;
use crate::model::{
    candidate_index, has_candidate, has_voter, lemma_add_candidate_keeps_wf,
    lemma_cast_vote_keeps_wf, lemma_end_voting_keeps_wf, lemma_initial_wf,
    lemma_register_voter_keeps_wf, voter_index, CandidateView, VoterView, VotingModel,
};

verus! {

/// A candidate that voters can choose, with its running vote count.
pub struct Candidate {
    pub id: String,
    pub name: String,
    pub vote_count: u64,
}

impl View for Candidate {
    type V = CandidateView;

    open spec fn view(&self) -> CandidateView {
        CandidateView { id: self.id@, name: self.name@, vote_count: self.vote_count as nat }
    }
}

impl Clone for Candidate {
    fn clone(&self) -> (r: Self)
        ensures
            r == *self,
    {
        Candidate { id: self.id.clone(), name: self.name.clone(), vote_count: self.vote_count }
    }
}

/// A registered voter; `vote` holds the chosen candidate's id once it has voted.
pub struct Voter {
    pub id: String,
    pub voted: bool,
    pub vote: Option<String>,
}

impl View for Voter {
    type V = VoterView;

    open spec fn view(&self) -> VoterView {
        VoterView {
            id: self.id@,
            voted: self.voted,
            vote: match self.vote {
                Some(c) => Some(c@),
                None => None,
            },
        }
    }
}

/// The registry of candidates and voters, and whether ballots are still accepted.
pub struct VotingSystem {
    candidates: Vec<Candidate>,
    voters: Vec<Voter>,
    is_active: bool,
}

impl View for VotingSystem {
    type V = VotingModel;

    closed spec fn view(&self) -> VotingModel {
        VotingModel {
            candidates: self.candidates@.map_values(|c: Candidate| c@),
            voters: self.voters@.map_values(|v: Voter| v@),
            is_active: self.is_active,
        }
    }
}

/// Position of the candidate with id `id`, if any.
fn find_candidate(cs: &Vec<Candidate>, id: &String) -> (r: Option<usize>)
    ensures
        match r {
            Some(i) => i < cs.len() && cs@[i as int].id@ == id@,
            None => forall|j: int| 0 <= j < cs.len() ==> (#[trigger] cs@[j]).id@ != id@,
        },
{
    let mut i: usize = 0;
    while i < cs.len()
        invariant
            i <= cs.len(),
            forall|j: int| 0 <= j < i ==> (#[trigger] cs@[j]).id@ != id@,
        decreases cs.len() - i,
    {
        if cs[i].id == *id {
            return Some(i);
        }
        i = i + 1;
    }
    None
}

/// Position of the voter with id `id`, if any.
fn find_voter(vs: &Vec<Voter>, id: &String) -> (r: Option<usize>)
    ensures
        match r {
            Some(i) => i < vs.len() && vs@[i as int].id@ == id@,
            None => forall|j: int| 0 <= j < vs.len() ==> (#[trigger] vs@[j]).id@ != id@,
        },
{
    let mut i: usize = 0;
    while i < vs.len()
        invariant
            i <= vs.len(),
            forall|j: int| 0 <= j < i ==> (#[trigger] vs@[j]).id@ != id@,
        decreases vs.len() - i,
    {
        if vs[i].id == *id {
            return Some(i);
        }
        i = i + 1;
    }
    None
}

impl VotingSystem {
    /// The registry is consistent (see `VotingModel::wf`).
    pub open spec fn wf(&self) -> bool {
        self@.wf()
    }

    /// An empty registry, open for voting.
    pub fn new() -> (s: Self)
        ensures
            s@ == VotingModel::initial(),
            s.wf(),
    {
        let s = VotingSystem { candidates: Vec::new(), voters: Vec::new(), is_active: true };
        proof {
            lemma_initial_wf();
            assert(s@.candidates =~= Seq::<CandidateView>::empty());
            assert(s@.voters =~= Seq::<VoterView>::empty());
        }
        s
    }

    /// Registers a candidate with no votes; fails if the id is taken.
    pub fn add_candidate(&mut self, id: String, name: String) -> (r: Result<(), VoteError>)
        requires
            old(self).wf(),
        ensures
            final(self).wf(),
            r == old(self)@.add_candidate_result(id@),
            final(self)@ == old(self)@.after_add_candidate(id@, name@),
    {
        proof {
            lemma_add_candidate_keeps_wf(self@, id@, name@);
        }
        match find_candidate(&self.candidates, &id) {
            Some(i) => {
                assert(self@.candidates[i as int].id == id@);
                Err(VoteError::DuplicateCandidate)
            },
            None => {
                assert(!has_candidate(self@.candidates, id@)) by {
                    assert forall|j: int| 0 <= j < self@.candidates.len() implies (
                    #[trigger] self@.candidates[j]).id != id@ by {
                        assert(self@.candidates[j] == self.candidates@[j]@);
                    }
                }
                let ghost before = self@;
                self.candidates.push(Candidate { id, name, vote_count: 0 });
                assert(self@.candidates =~= before.candidates.push(
                    CandidateView { id: id@, name: name@, vote_count: 0 },
                ));
                Ok(())
            },
        }
    }

    /// Registers a voter that has not voted yet; fails if the id is taken.
    pub fn register_voter(&mut self, id: String) -> (r: Result<(), VoteError>)
        requires
            old(self).wf(),
        ensures
            final(self).wf(),
            r == old(self)@.register_voter_result(id@),
            final(self)@ == old(self)@.after_register_voter(id@),
    {
        proof {
            lemma_register_voter_keeps_wf(self@, id@);
        }
        match find_voter(&self.voters, &id) {
            Some(i) => {
                assert(self@.voters[i as int].id == id@);
                Err(VoteError::DuplicateVoter)
            },
            None => {
                assert(!has_voter(self@.voters, id@)) by {
                    assert forall|j: int| 0 <= j < self@.voters.len() implies (
                    #[trigger] self@.voters[j]).id != id@ by {
                        assert(self@.voters[j] == self.voters@[j]@);
                    }
                }
                let ghost before = self@;
                self.voters.push(Voter { id, voted: false, vote: None });
                assert(self@.voters =~= before.voters.push(
                    VoterView { id: id@, voted: false, vote: None },
                ));
                Ok(())
            },
        }
    }

    /// Records a ballot of `voter_id` for `candidate_id`. All checks are made
    /// before anything changes: voting open, voter known, voter not yet
    /// voted, candidate known, in that order.
    pub fn cast_vote(&mut self, voter_id: String, candidate_id: String) -> (r: Result<
        (),
        VoteError,
    >)
        requires
            old(self).wf(),
        ensures
            final(self).wf(),
            r == old(self)@.cast_vote_result(voter_id@, candidate_id@),
            final(self)@ == old(self)@.after_cast_vote(voter_id@, candidate_id@),
    {
        proof {
            lemma_cast_vote_keeps_wf(self@, voter_id@, candidate_id@);
        }
        if !self.is_active {
            return Err(VoteError::VotingClosed);
        }
        let vi = match find_voter(&self.voters, &voter_id) {
            Some(i) => i,
            None => {
                assert(!has_voter(self@.voters, voter_id@)) by {
                    assert forall|j: int| 0 <= j < self@.voters.len() implies (
                    #[trigger] self@.voters[j]).id != voter_id@ by {
                        assert(self@.voters[j] == self.voters@[j]@);
                    }
                }
                return Err(VoteError::UnknownVoter);
            },
        };
        assert(self@.voters[vi as int].id == voter_id@);
        assert(voter_index(self@.voters, voter_id@) == vi);
        if self.voters[vi].voted {
            return Err(VoteError::AlreadyVoted);
        }
        let ci = match find_candidate(&self.candidates, &candidate_id) {
            Some(i) => i,
            None => {
                assert(!has_candidate(self@.candidates, candidate_id@)) by {
                    assert forall|j: int| 0 <= j < self@.candidates.len() implies (
                    #[trigger] self@.candidates[j]).id != candidate_id@ by {
                        assert(self@.candidates[j] == self.candidates@[j]@);
                    }
                }
                return Err(VoteError::UnknownCandidate);
            },
        };
        assert(self@.candidates[ci as int].id == candidate_id@);
        assert(candidate_index(self@.candidates, candidate_id@) == ci);
        let ghost before = self@;
        assert(self.voters@.len() <= usize::MAX);
        let count = self.candidates[ci].vote_count;
        self.voters[vi].voted = true;
        self.voters[vi].vote = Some(candidate_id);
        self.candidates[ci].vote_count = count + 1;
        proof {
            let target = before.after_cast_vote(voter_id@, candidate_id@);
            assert(self@.voters =~= target.voters);
            assert(self@.candidates =~= target.candidates);
        }
        Ok(())
    }

    /// The current tally: each candidate's id with its vote count, in
    /// registration order.
    pub fn get_results(&self) -> (r: Vec<(String, u64)>)
        requires
            self.wf(),
        ensures
            r@.len() == self@.candidates.len(),
            forall|i: int|
                0 <= i < r@.len() ==> (#[trigger] r@[i]).0@ == self@.candidates[i].id
                    && r@[i].1 == self@.candidates[i].vote_count,
    {
        let mut r: Vec<(String, u64)> = Vec::new();
        let mut i: usize = 0;
        while i < self.candidates.len()
            invariant
                i <= self.candidates.len(),
                r@.len() == i,
                forall|k: int|
                    0 <= k < i ==> (#[trigger] r@[k]).0@ == self@.candidates[k].id && r@[k].1
                        == self@.candidates[k].vote_count,
            decreases self.candidates.len() - i,
        {
            let c = &self.candidates[i];
            r.push((c.id.clone(), c.vote_count));
            assert(self@.candidates[i as int] == self.candidates@[i as int]@);
            i = i + 1;
        }
        r
    }

    /// A copy of every candidate record, in registration order.
    pub fn list_candidates(&self) -> (r: Vec<Candidate>)
        requires
            self.wf(),
        ensures
            r@.len() == self@.candidates.len(),
            forall|i: int| 0 <= i < r@.len() ==> (#[trigger] r@[i])@ == self@.candidates[i],
    {
        let mut r: Vec<Candidate> = Vec::new();
        let mut i: usize = 0;
        while i < self.candidates.len()
            invariant
                i <= self.candidates.len(),
                r@.len() == i,
                forall|k: int| 0 <= k < i ==> (#[trigger] r@[k])@ == self@.candidates[k],
            decreases self.candidates.len() - i,
        {
            r.push(self.candidates[i].clone());
            assert(self@.candidates[i as int] == self.candidates@[i as int]@);
            i = i + 1;
        }
        r
    }

    /// Closes voting; later ballots are refused. Registrations stay open.
    pub fn end_voting(&mut self)
        requires
            old(self).wf(),
        ensures
            final(self).wf(),
            final(self)@ == old(self)@.after_end_voting(),
    {
        proof {
            lemma_end_voting_keeps_wf(self@);
        }
        self.is_active = false;
        assert(self@ =~= old(self)@.after_end_voting());
    }
}

} // verus!
