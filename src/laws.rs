use vstd::prelude::*;

use crate::error::VoteError;
use crate::model::{
    ballots_cast, candidate_index, has_candidate, has_voter, lemma_apply_keeps_wf,
    lemma_cast_vote_keeps_wf, lemma_initial_wf, total_votes, voter_index, CandidateView, Op,
    VoterView, VotingModel,
};

verus! {

/// The registry after a ballot for `candidate_id` from each of `voter_ids`,
/// in order.
pub open spec fn cast_votes(s: VotingModel, voter_ids: Seq<Seq<char>>, candidate_id: Seq<char>) -> VotingModel
    decreases voter_ids.len(),
{
    if voter_ids.len() == 0 {
        s
    } else {
        cast_votes(s, voter_ids.drop_last(), candidate_id).after_cast_vote(
            voter_ids.last(),
            candidate_id,
        )
    }
}

/// Every sequence of operations keeps a consistent registry consistent.
pub proof fn lemma_run_keeps_wf(s: VotingModel, ops: Seq<Op>)
    requires
        s.wf(),
    ensures
        s.run(ops).wf(),
    decreases ops.len(),
{
    if ops.len() > 0 {
        lemma_run_keeps_wf(s, ops.drop_last());
        lemma_apply_keeps_wf(s.run(ops.drop_last()), ops.last());
    }
}

/// Whatever operations are performed on a new registry, the vote counts of
/// all candidates add up to the number of voters that have voted.
pub proof fn lemma_tally_matches_ballots(ops: Seq<Op>)
    ensures
        total_votes(VotingModel::initial().run(ops).candidates) == ballots_cast(
            VotingModel::initial().run(ops).voters,
        ),
{
    lemma_initial_wf();
    lemma_run_keeps_wf(VotingModel::initial(), ops);
}

/// Registering a candidate id a second time is rejected as a duplicate and
/// leaves the registry, the first registration included, unchanged.
pub proof fn lemma_duplicate_candidate(
    s: VotingModel,
    id: Seq<char>,
    name: Seq<char>,
    other_name: Seq<char>,
)
    ensures
        s.after_add_candidate(id, name).add_candidate_result(id) == Err::<(), VoteError>(
            VoteError::DuplicateCandidate,
        ),
        s.after_add_candidate(id, name).after_add_candidate(id, other_name) == s.after_add_candidate(
            id,
            name,
        ),
{
    let t = s.after_add_candidate(id, name);
    if !has_candidate(s.candidates, id) {
        assert(t.candidates[t.candidates.len() - 1].id == id);
    }
}

/// Registering a voter id a second time is rejected as a duplicate and
/// leaves the registry unchanged.
pub proof fn lemma_duplicate_voter(s: VotingModel, id: Seq<char>)
    ensures
        s.after_register_voter(id).register_voter_result(id) == Err::<(), VoteError>(
            VoteError::DuplicateVoter,
        ),
        s.after_register_voter(id).after_register_voter(id) == s.after_register_voter(id),
{
    let t = s.after_register_voter(id);
    if !has_voter(s.voters, id) {
        assert(t.voters[t.voters.len() - 1].id == id);
    }
}

/// While voting is open, a ballot from an unregistered voter is rejected as
/// coming from an unknown voter and changes nothing.
pub proof fn lemma_unknown_voter(s: VotingModel, voter_id: Seq<char>, candidate_id: Seq<char>)
    requires
        s.is_active,
        !has_voter(s.voters, voter_id),
    ensures
        s.cast_vote_result(voter_id, candidate_id) == Err::<(), VoteError>(VoteError::UnknownVoter),
        s.after_cast_vote(voter_id, candidate_id) == s,
{
}

/// While voting is open, a ballot from a registered voter that has not voted
/// yet, for a candidate that does not exist, is rejected as naming an unknown
/// candidate and changes nothing.
pub proof fn lemma_unknown_candidate(s: VotingModel, voter_id: Seq<char>, candidate_id: Seq<char>)
    requires
        s.is_active,
        has_voter(s.voters, voter_id),
        !s.voters[voter_index(s.voters, voter_id)].voted,
        !has_candidate(s.candidates, candidate_id),
    ensures
        s.cast_vote_result(voter_id, candidate_id) == Err::<(), VoteError>(
            VoteError::UnknownCandidate,
        ),
        s.after_cast_vote(voter_id, candidate_id) == s,
{
}

/// After a voter's ballot has been accepted, any further ballot of that voter
/// is rejected as a repeat and changes nothing, so the count of the first
/// choice stays as it was.
pub proof fn lemma_second_ballot_rejected(
    s: VotingModel,
    voter_id: Seq<char>,
    first: Seq<char>,
    second: Seq<char>,
)
    requires
        s.wf(),
        s.cast_vote_result(voter_id, first) is Ok,
    ensures
        s.after_cast_vote(voter_id, first).cast_vote_result(voter_id, second) == Err::<
            (),
            VoteError,
        >(VoteError::AlreadyVoted),
        s.after_cast_vote(voter_id, first).after_cast_vote(voter_id, second) == s.after_cast_vote(
            voter_id,
            first,
        ),
{
    lemma_cast_vote_keeps_wf(s, voter_id, first);
    let t = s.after_cast_vote(voter_id, first);
    let vi = voter_index(s.voters, voter_id);
    assert(t.voters[vi].id == voter_id);
    assert(voter_index(t.voters, voter_id) == vi);
}

/// The registry stays closed whatever follows its closing.
proof fn lemma_closed_stays_closed(s: VotingModel, ops: Seq<Op>)
    requires
        !s.is_active,
    ensures
        !s.run(ops).is_active,
    decreases ops.len(),
{
    if ops.len() > 0 {
        lemma_closed_stays_closed(s, ops.drop_last());
    }
}

/// Once voting has ended, whatever operations follow, every ballot is
/// rejected as cast after closing and changes nothing, while a new candidate
/// or voter is still accepted.
pub proof fn lemma_closed_voting(
    s: VotingModel,
    ops: Seq<Op>,
    voter_id: Seq<char>,
    candidate_id: Seq<char>,
    new_candidate: Seq<char>,
    name: Seq<char>,
    new_voter: Seq<char>,
)
    ensures
        s.after_end_voting().run(ops).cast_vote_result(voter_id, candidate_id) == Err::<
            (),
            VoteError,
        >(VoteError::VotingClosed),
        s.after_end_voting().run(ops).after_cast_vote(voter_id, candidate_id) == s.after_end_voting().run(
            ops,
        ),
        !has_candidate(s.after_end_voting().run(ops).candidates, new_candidate) ==> {
            let t = s.after_end_voting().run(ops);
            &&& t.add_candidate_result(new_candidate) is Ok
            &&& t.after_add_candidate(new_candidate, name).candidates == t.candidates.push(
                CandidateView { id: new_candidate, name, vote_count: 0 },
            )
        },
        !has_voter(s.after_end_voting().run(ops).voters, new_voter) ==> {
            let t = s.after_end_voting().run(ops);
            &&& t.register_voter_result(new_voter) is Ok
            &&& t.after_register_voter(new_voter).voters == t.voters.push(
                VoterView { id: new_voter, voted: false, vote: None },
            )
        },
{
    lemma_closed_stays_closed(s.after_end_voting(), ops);
}

/// Strengthened form of `lemma_distinct_ballots_all_count`, carried through
/// the induction.
proof fn lemma_cast_votes_frame(s: VotingModel, voter_ids: Seq<Seq<char>>, candidate_id: Seq<char>)
    requires
        s.wf(),
        s.is_active,
        has_candidate(s.candidates, candidate_id),
        voter_ids.no_duplicates(),
        forall|k: int|
            0 <= k < voter_ids.len() ==> has_voter(s.voters, #[trigger] voter_ids[k])
                && !s.voters[voter_index(s.voters, voter_ids[k])].voted,
    ensures
        ({
            let t = cast_votes(s, voter_ids, candidate_id);
            let ci = candidate_index(s.candidates, candidate_id);
            &&& t.wf()
            &&& t.is_active
            &&& t.candidates.len() == s.candidates.len()
            &&& forall|i: int| 0 <= i < s.candidates.len() ==> (#[trigger] t.candidates[i]).id == s.candidates[i].id
            &&& t.voters.len() == s.voters.len()
            &&& forall|j: int| 0 <= j < s.voters.len() ==> (#[trigger] t.voters[j]).id == s.voters[j].id
            &&& forall|j: int|
                0 <= j < s.voters.len() && !voter_ids.contains(s.voters[j].id) ==> (
                #[trigger] t.voters[j]).voted == s.voters[j].voted
            &&& t.candidates[ci].vote_count == s.candidates[ci].vote_count + voter_ids.len()
            &&& forall|i: int|
                0 <= i < s.candidates.len() && i != ci ==> (#[trigger] t.candidates[i]).vote_count
                    == s.candidates[i].vote_count
        }),
    decreases voter_ids.len(),
{
    let ci = candidate_index(s.candidates, candidate_id);
    if voter_ids.len() > 0 {
        let prefix = voter_ids.drop_last();
        let v = voter_ids.last();
        assert(prefix.no_duplicates());
        assert forall|k: int| 0 <= k < prefix.len() implies has_voter(s.voters, #[trigger] prefix[k])
            && !s.voters[voter_index(s.voters, prefix[k])].voted by {
            assert(prefix[k] == voter_ids[k]);
        }
        lemma_cast_votes_frame(s, prefix, candidate_id);
        let u = cast_votes(s, prefix, candidate_id);
        assert(has_voter(s.voters, voter_ids[voter_ids.len() - 1]));
        let vi = voter_index(s.voters, v);
        assert(u.voters[vi].id == v);
        assert(voter_index(u.voters, v) == vi);
        assert(!prefix.contains(v)) by {
            if prefix.contains(v) {
                let k = choose|k: int| 0 <= k < prefix.len() && prefix[k] == v;
                assert(voter_ids[k] == voter_ids[voter_ids.len() - 1]);
            }
        }
        assert(!u.voters[vi].voted);
        assert(u.candidates[ci].id == candidate_id);
        assert(candidate_index(u.candidates, candidate_id) == ci);
        assert(u.cast_vote_result(v, candidate_id) is Ok);
        lemma_cast_vote_keeps_wf(u, v, candidate_id);
        let t = cast_votes(s, voter_ids, candidate_id);
        assert(t == u.after_cast_vote(v, candidate_id));
        assert forall|j: int|
            0 <= j < s.voters.len() && !voter_ids.contains(s.voters[j].id) implies (
            #[trigger] t.voters[j]).voted == s.voters[j].voted by {
            assert(voter_ids[voter_ids.len() - 1] == v);
            if j == vi {
                assert(voter_ids.contains(s.voters[j].id));
            }
            if prefix.contains(s.voters[j].id) {
                let k = choose|k: int| 0 <= k < prefix.len() && prefix[k] == s.voters[j].id;
                assert(voter_ids[k] == prefix[k]);
            }
        }
    }
}

/// Ballots for one candidate from distinct registered voters that have not
/// voted yet, taken one after another while voting is open, are all counted:
/// the candidate gains exactly one vote per ballot, none is lost.
pub proof fn lemma_distinct_ballots_all_count(
    s: VotingModel,
    voter_ids: Seq<Seq<char>>,
    candidate_id: Seq<char>,
)
    requires
        s.wf(),
        s.is_active,
        has_candidate(s.candidates, candidate_id),
        voter_ids.no_duplicates(),
        forall|k: int|
            0 <= k < voter_ids.len() ==> has_voter(s.voters, #[trigger] voter_ids[k])
                && !s.voters[voter_index(s.voters, voter_ids[k])].voted,
    ensures
        cast_votes(s, voter_ids, candidate_id).candidates[candidate_index(
            s.candidates,
            candidate_id,
        )].vote_count == s.candidates[candidate_index(s.candidates, candidate_id)].vote_count
            + voter_ids.len(),
        ballots_cast(cast_votes(s, voter_ids, candidate_id).voters) == ballots_cast(s.voters)
            + voter_ids.len(),
{
    lemma_cast_votes_frame(s, voter_ids, candidate_id);
    lemma_ballots_grow(s, voter_ids, candidate_id);
}

/// Each accepted ballot adds exactly one to the number of ballots cast.
proof fn lemma_ballots_grow(s: VotingModel, voter_ids: Seq<Seq<char>>, candidate_id: Seq<char>)
    requires
        s.wf(),
        s.is_active,
        has_candidate(s.candidates, candidate_id),
        voter_ids.no_duplicates(),
        forall|k: int|
            0 <= k < voter_ids.len() ==> has_voter(s.voters, #[trigger] voter_ids[k])
                && !s.voters[voter_index(s.voters, voter_ids[k])].voted,
    ensures
        ballots_cast(cast_votes(s, voter_ids, candidate_id).voters) == ballots_cast(s.voters)
            + voter_ids.len(),
{
    lemma_cast_votes_frame(s, voter_ids, candidate_id);
    let t = cast_votes(s, voter_ids, candidate_id);
    let ci = candidate_index(s.candidates, candidate_id);
    lemma_total_with_one_change(s.candidates, t.candidates, ci);
}

/// Two candidate lists that differ only in the count at `ci` differ in total
/// by exactly that much.
proof fn lemma_total_with_one_change(a: Seq<CandidateView>, b: Seq<CandidateView>, ci: int)
    requires
        a.len() == b.len(),
        0 <= ci < a.len(),
        forall|i: int| 0 <= i < a.len() && i != ci ==> (#[trigger] a[i]).vote_count == b[i].vote_count,
    ensures
        total_votes(b) - b[ci].vote_count == total_votes(a) - a[ci].vote_count,
    decreases a.len(),
{
    if ci == a.len() - 1 {
        lemma_total_same(a.drop_last(), b.drop_last());
    } else {
        lemma_total_with_one_change(a.drop_last(), b.drop_last(), ci);
    }
}

proof fn lemma_total_same(a: Seq<CandidateView>, b: Seq<CandidateView>)
    requires
        a.len() == b.len(),
        forall|i: int| 0 <= i < a.len() ==> (#[trigger] a[i]).vote_count == b[i].vote_count,
    ensures
        total_votes(a) == total_votes(b),
    decreases a.len(),
{
    if a.len() > 0 {
        lemma_total_same(a.drop_last(), b.drop_last());
    }
}

} // verus!
