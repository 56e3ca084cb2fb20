//! The governance registry: proposals that accounts vote on, one vote per
//! account, until a proposal is finalized as approved or rejected.

use crate::staking::StakingConfig;
use std::collections::HashMap;
use vstd::prelude::*;

verus! {

/// The configuration of a runtime that decides by proposals.
pub trait GovernanceConfig: StakingConfig {

}

/// Where a proposal stands in its life.
#[derive(Clone, Copy, Debug, PartialEq, Eq, Structural)]
pub enum ProposalStatus {
    /// Open for votes.
    Active,
    /// Finalized with more yes votes than no votes.
    Approved,
    /// Finalized without more yes votes than no votes.
    Rejected,
}

/// Why a call on the registry was refused.
#[derive(Clone, Copy, Debug, PartialEq, Eq, Structural)]
pub enum GovernanceError {
    /// No proposal has the given id.
    ProposalNotFound,
    /// The proposal is no longer active.
    ProposalFinalized,
    /// The voter has a vote on record for the proposal.
    AlreadyVoted,
}

impl GovernanceError {
    /// The text of the error.
    pub open spec fn text(self) -> Seq<char> {
        match self {
            GovernanceError::ProposalNotFound => "Proposal does not exist"@,
            GovernanceError::ProposalFinalized => "Cannot vote on finalized proposal"@,
            GovernanceError::AlreadyVoted => "Voter has already voted on this proposal"@,
        }
    }

    /// A short text that says what went wrong.
    pub fn message(&self) -> (message: &'static str)
        ensures
            message@ == self.text(),
    {
        match self {
            GovernanceError::ProposalNotFound => "Proposal does not exist",
            GovernanceError::ProposalFinalized => "Cannot vote on finalized proposal",
            GovernanceError::AlreadyVoted => "Voter has already voted on this proposal",
        }
    }
}

/// A proposal as a mathematical record.
pub struct ProposalRecord<A> {
    /// The text of the proposal.
    pub description: Seq<char>,
    /// How many accounts voted yes.
    pub yes_votes: nat,
    /// How many accounts voted no.
    pub no_votes: nat,
    /// Where the proposal stands.
    pub status: ProposalStatus,
    /// The account that created the proposal.
    pub creator: A,
}

impl<A> ProposalRecord<A> {
    /// The record of a proposal that was just created.
    pub open spec fn fresh(creator: A, description: Seq<char>) -> Self {
        ProposalRecord {
            description,
            yes_votes: 0,
            no_votes: 0,
            status: ProposalStatus::Active,
            creator,
        }
    }

    /// The count of votes for one of the two choices.
    pub open spec fn tally(self, choice: bool) -> nat {
        if choice {
            self.yes_votes
        } else {
            self.no_votes
        }
    }

    /// The record with one more vote for `choice`.
    pub open spec fn with_vote(self, choice: bool) -> Self {
        if choice {
            ProposalRecord { yes_votes: self.yes_votes + 1, ..self }
        } else {
            ProposalRecord { no_votes: self.no_votes + 1, ..self }
        }
    }

    /// The status that finalizing gives: approved where the yes votes are
    /// strictly more than the no votes, else rejected.
    pub open spec fn verdict(self) -> ProposalStatus {
        if self.yes_votes > self.no_votes {
            ProposalStatus::Approved
        } else {
            ProposalStatus::Rejected
        }
    }

    /// The record with its status set to the verdict.
    pub open spec fn finalized(self) -> Self {
        ProposalRecord { status: self.verdict(), ..self }
    }
}

/// The registry as mathematical maps and a counter.
#[verifier::reject_recursive_types(A)]
pub struct GovernanceState<A> {
    /// The proposals by id.
    pub proposals: Map<nat, ProposalRecord<A>>,
    /// The choice that each voter made on each proposal.
    pub votes: Map<(A, nat), bool>,
    /// The id that the next proposal gets.
    pub next_id: nat,
}

impl<A> GovernanceState<A> {
    /// The registry without any proposal.
    pub open spec fn empty() -> Self {
        GovernanceState { proposals: Map::empty(), votes: Map::empty(), next_id: 0 }
    }

    /// The accounts on record with the vote `choice` on proposal `id`.
    pub open spec fn ballots(self, id: nat, choice: bool) -> Set<A> {
        Set::new(|voter: A| self.votes.contains_key((voter, id)) && self.votes[(voter, id)] == choice)
    }

    /// The registry is well formed: the ids in use are exactly those below
    /// the counter, every vote is on a proposal of the registry, and each
    /// tally counts the votes on record for its choice.
    pub open spec fn wf(self) -> bool {
        &&& forall|id: nat| #[trigger] self.proposals.contains_key(id) <==> id < self.next_id
        &&& forall|voter: A, id: nat| #[trigger]
            self.votes.contains_key((voter, id)) ==> self.proposals.contains_key(id)
        &&& forall|id: nat, choice: bool|
            self.proposals.contains_key(id) ==> {
                &&& (#[trigger] self.ballots(id, choice)).finite()
                &&& self.proposals[id].tally(choice) == self.ballots(id, choice).len()
            }
    }

    /// The registry after a proposal was created.
    pub open spec fn after_create(self, creator: A, description: Seq<char>) -> Self {
        GovernanceState {
            proposals: self.proposals.insert(
                self.next_id,
                ProposalRecord::fresh(creator, description),
            ),
            votes: self.votes,
            next_id: self.next_id + 1,
        }
    }

    /// How a vote of `voter` on proposal `id` ends.
    pub open spec fn vote_outcome(self, voter: A, id: nat) -> Result<(), GovernanceError> {
        if !self.proposals.contains_key(id) {
            Err(GovernanceError::ProposalNotFound)
        } else if self.proposals[id].status != ProposalStatus::Active {
            Err(GovernanceError::ProposalFinalized)
        } else if self.votes.contains_key((voter, id)) {
            Err(GovernanceError::AlreadyVoted)
        } else {
            Ok(())
        }
    }

    /// The registry with the vote on record and counted.
    pub open spec fn with_vote(self, voter: A, id: nat, choice: bool) -> Self {
        GovernanceState {
            proposals: self.proposals.insert(id, self.proposals[id].with_vote(choice)),
            votes: self.votes.insert((voter, id), choice),
            next_id: self.next_id,
        }
    }

    /// The registry after a call to vote: with the vote where the call
    /// succeeds, untouched where it is refused.
    pub open spec fn after_vote(self, voter: A, id: nat, choice: bool) -> Self {
        if self.vote_outcome(voter, id) is Ok {
            self.with_vote(voter, id, choice)
        } else {
            self
        }
    }

    /// How finalizing proposal `id` ends.
    pub open spec fn finalize_outcome(self, id: nat) -> Result<ProposalStatus, GovernanceError> {
        if !self.proposals.contains_key(id) {
            Err(GovernanceError::ProposalNotFound)
        } else if self.proposals[id].status != ProposalStatus::Active {
            Err(GovernanceError::ProposalFinalized)
        } else {
            Ok(self.proposals[id].verdict())
        }
    }

    /// The registry after a call to finalize: with the verdict as status
    /// where the call succeeds, untouched where it is refused.
    pub open spec fn after_finalize(self, id: nat) -> Self {
        if self.finalize_outcome(id) is Ok {
            GovernanceState {
                proposals: self.proposals.insert(id, self.proposals[id].finalized()),
                ..self
            }
        } else {
            self
        }
    }
}

/// A proposal of the registry.
pub struct Proposal<T: GovernanceConfig> {
    description: String,
    yes_votes: u32,
    no_votes: u32,
    status: ProposalStatus,
    creator: T::AccountId,
}

impl<T: GovernanceConfig> View for Proposal<T> {
    type V = ProposalRecord<T::AccountId>;

    closed spec fn view(&self) -> ProposalRecord<T::AccountId> {
        ProposalRecord {
            description: self.description@,
            yes_votes: self.yes_votes as nat,
            no_votes: self.no_votes as nat,
            status: self.status,
            creator: self.creator,
        }
    }
}

impl<T: GovernanceConfig> Proposal<T> {
    /// The text of the proposal.
    pub fn description(&self) -> (text: &String)
        ensures
            text@ == self@.description,
    {
        &self.description
    }

    /// How many accounts voted yes.
    pub fn yes_votes(&self) -> (count: u32)
        ensures
            count == self@.yes_votes,
    {
        self.yes_votes
    }

    /// How many accounts voted no.
    pub fn no_votes(&self) -> (count: u32)
        ensures
            count == self@.no_votes,
    {
        self.no_votes
    }

    /// Where the proposal stands.
    pub fn status(&self) -> (status: ProposalStatus)
        ensures
            status == self@.status,
    {
        self.status
    }

    /// Whether the proposal is open for votes.
    pub fn is_active(&self) -> (active: bool)
        ensures
            active == (self@.status == ProposalStatus::Active),
    {
        match self.status {
            ProposalStatus::Active => true,
            _ => false,
        }
    }

    /// The account that created the proposal.
    pub fn creator(&self) -> (creator: T::AccountId)
        ensures
            creator == self@.creator,
    {
        self.creator
    }
}

/// The governance registry of a runtime.
pub struct GovernancePallet<T: GovernanceConfig> {
    proposals: HashMap<u32, Proposal<T>>,
    votes: HashMap<u32, HashMap<T::AccountId, bool>>,
    next_proposal_id: u32,
}

impl<T: GovernanceConfig> View for GovernancePallet<T> {
    type V = GovernanceState<T::AccountId>;

    closed spec fn view(&self) -> GovernanceState<T::AccountId> {
        GovernanceState {
            proposals: Map::new(
                |id: nat| id <= u32::MAX && self.proposals@.contains_key(id as u32),
                |id: nat| self.proposals@[id as u32]@,
            ),
            votes: Map::new(
                |vote: (T::AccountId, nat)|
                    vote.1 <= u32::MAX && self.votes@.contains_key(vote.1 as u32)
                        && self.votes@[vote.1 as u32]@.contains_key(vote.0),
                |vote: (T::AccountId, nat)| self.votes@[vote.1 as u32]@[vote.0],
            ),
            next_id: self.next_proposal_id as nat,
        }
    }
}

impl<T: GovernanceConfig> GovernancePallet<T> {
    /// A registry without any proposal. The first proposal gets the id 0.
    pub fn new() -> (registry: Self)
        ensures
            registry@ == GovernanceState::<T::AccountId>::empty(),
            registry@.wf(),
    {
        let registry = Self { proposals: HashMap::new(), votes: HashMap::new(), next_proposal_id: 0 };
        assert(registry@.proposals =~= Map::empty());
        assert(registry@.votes =~= Map::empty());
        registry
    }

    /// The id that the next proposal gets. It is also the number of
    /// proposals created so far.
    pub fn next_proposal_id(&self) -> (id: u32)
        ensures
            id == self@.next_id,
    {
        self.next_proposal_id
    }

    /// Creates a proposal, active and without votes, under the next id, and
    /// returns that id. The call is never refused.
    ///
    /// An id is a `u32`: the next id has to be below `u32::MAX`, so that the
    /// counter can move on.
    pub fn create_proposal(&mut self, creator: T::AccountId, description: String) -> (result:
        Result<u32, GovernanceError>)
        requires
            old(self)@.wf(),
            old(self)@.next_id < u32::MAX,
        ensures
            result matches Ok(id) && id == old(self)@.next_id,
            final(self)@ == old(self)@.after_create(creator, description@),
            final(self)@.wf(),
    {
        let proposal_id = self.next_proposal_id;
        let ghost text = description@;
        let proposal = Proposal {
            description,
            yes_votes: 0,
            no_votes: 0,
            status: ProposalStatus::Active,
            creator,
        };
        self.proposals.insert(proposal_id, proposal);
        self.next_proposal_id = self.next_proposal_id + 1;
        proof {
            let before = old(self)@;
            let after = before.after_create(creator, text);
            assert(self@.proposals =~= after.proposals);
            assert(self@.votes =~= after.votes);
            lemma_create_keeps_wf(before, creator, text);
        }
        Ok(proposal_id)
    }

    /// Records the vote of `voter` on a proposal and counts it: `true` is a
    /// yes, `false` a no.
    ///
    /// The call is refused with `ProposalNotFound` where no proposal has the
    /// id, else with `ProposalFinalized` where the proposal is not active,
    /// else with `AlreadyVoted` where the voter has a vote on record for it.
    /// A refused call leaves the registry as it was: the vote on record
    /// stands.
    ///
    /// A tally is a `u32`: a vote that would be counted needs the tally of
    /// its choice below `u32::MAX`.
    pub fn vote(&mut self, voter: T::AccountId, proposal_id: u32, vote_type: bool) -> (result:
        Result<(), GovernanceError>)
        requires
            old(self)@.wf(),
            old(self)@.vote_outcome(voter, proposal_id as nat) is Ok ==> old(self)@.proposals[
                proposal_id as nat
            ].tally(vote_type) < u32::MAX,
        ensures
            result == old(self)@.vote_outcome(voter, proposal_id as nat),
            final(self)@ == old(self)@.after_vote(voter, proposal_id as nat, vote_type),
            final(self)@.wf(),
    {
        proof {
            <T::AccountId as crate::system::AccountKey>::is_hash_key();
        }
        let active = match self.proposals.get(&proposal_id) {
            Some(proposal) => proposal.is_active(),
            None => {
                return Err(GovernanceError::ProposalNotFound);
            },
        };
        if !active {
            return Err(GovernanceError::ProposalFinalized);
        }
        let voted = match self.votes.get(&proposal_id) {
            Some(ballots) => ballots.contains_key(&voter),
            None => false,
        };
        if voted {
            return Err(GovernanceError::AlreadyVoted);
        }
        let mut ballots = match self.votes.remove(&proposal_id) {
            Some(ballots) => ballots,
            None => HashMap::new(),
        };
        ballots.insert(voter, vote_type);
        self.votes.insert(proposal_id, ballots);
        let mut proposal = self.proposals.remove(&proposal_id).unwrap();
        if vote_type {
            proposal.yes_votes = proposal.yes_votes + 1;
        } else {
            proposal.no_votes = proposal.no_votes + 1;
        }
        self.proposals.insert(proposal_id, proposal);
        proof {
            let before = old(self)@;
            let after = before.with_vote(voter, proposal_id as nat, vote_type);
            assert(self@.proposals =~= after.proposals);
            assert(self@.votes =~= after.votes);
            lemma_vote_keeps_wf(before, voter, proposal_id as nat, vote_type);
        }
        Ok(())
    }

    /// Closes an active proposal: it becomes approved where its yes votes are
    /// strictly more than its no votes, else rejected, and the new status is
    /// returned.
    ///
    /// The call is refused with `ProposalNotFound` where no proposal has the
    /// id, else with `ProposalFinalized` where the proposal is not active. A
    /// refused call leaves the registry as it was.
    pub fn finalize_proposal(&mut self, proposal_id: u32) -> (result: Result<
        ProposalStatus,
        GovernanceError,
    >)
        requires
            old(self)@.wf(),
        ensures
            result == old(self)@.finalize_outcome(proposal_id as nat),
            final(self)@ == old(self)@.after_finalize(proposal_id as nat),
            final(self)@.wf(),
            result matches Ok(status) ==> {
                let closed = old(self)@.proposals[proposal_id as nat];
                &&& status == ProposalStatus::Approved <==> closed.yes_votes > closed.no_votes
                &&& status == ProposalStatus::Rejected <==> closed.yes_votes <= closed.no_votes
            },
    {
        let active = match self.proposals.get(&proposal_id) {
            Some(proposal) => proposal.is_active(),
            None => {
                return Err(GovernanceError::ProposalNotFound);
            },
        };
        if !active {
            return Err(GovernanceError::ProposalFinalized);
        }
        let mut proposal = self.proposals.remove(&proposal_id).unwrap();
        let status = if proposal.yes_votes > proposal.no_votes {
            ProposalStatus::Approved
        } else {
            ProposalStatus::Rejected
        };
        proposal.status = status;
        self.proposals.insert(proposal_id, proposal);
        proof {
            let before = old(self)@;
            let after = before.after_finalize(proposal_id as nat);
            assert(self@.proposals =~= after.proposals);
            assert(self@.votes =~= after.votes);
            lemma_finalize_keeps_wf(before, proposal_id as nat);
        }
        Ok(status)
    }

    /// The proposal with the given id, if there is one.
    pub fn get_proposal(&self, proposal_id: u32) -> (found: Option<&Proposal<T>>)
        ensures
            match found {
                Some(proposal) => self@.proposals.contains_key(proposal_id as nat)
                    && proposal@ == self@.proposals[proposal_id as nat],
                None => !self@.proposals.contains_key(proposal_id as nat),
            },
    {
        self.proposals.get(&proposal_id)
    }
}

/// Creating a proposal keeps the registry well formed.
pub proof fn lemma_create_keeps_wf<A>(state: GovernanceState<A>, creator: A, description: Seq<char>)
    requires
        state.wf(),
    ensures
        state.after_create(creator, description).wf(),
{
    let after = state.after_create(creator, description);
    assert forall|id: nat, choice: bool| after.proposals.contains_key(id) implies {
        &&& (#[trigger] after.ballots(id, choice)).finite()
        &&& after.proposals[id].tally(choice) == after.ballots(id, choice).len()
    } by {
        if id == state.next_id {
            assert(after.ballots(id, choice) =~= Set::empty());
        } else {
            assert(after.ballots(id, choice) =~= state.ballots(id, choice));
        }
    }
}

/// A vote keeps the registry well formed, whether it is counted or refused.
pub proof fn lemma_vote_keeps_wf<A>(state: GovernanceState<A>, voter: A, id: nat, choice: bool)
    requires
        state.wf(),
    ensures
        state.after_vote(voter, id, choice).wf(),
{
    if state.vote_outcome(voter, id) is Ok {
        let after = state.with_vote(voter, id, choice);
        assert forall|other: nat, side: bool| after.proposals.contains_key(other) implies {
            &&& (#[trigger] after.ballots(other, side)).finite()
            &&& after.proposals[other].tally(side) == after.ballots(other, side).len()
        } by {
            assert(state.ballots(other, side).finite());
            if other == id && side == choice {
                assert(after.ballots(other, side) =~= state.ballots(other, side).insert(voter));
            } else {
                assert(after.ballots(other, side) =~= state.ballots(other, side));
            }
        }
    }
}

/// Finalizing keeps the registry well formed, whether it succeeds or is
/// refused.
pub proof fn lemma_finalize_keeps_wf<A>(state: GovernanceState<A>, id: nat)
    requires
        state.wf(),
    ensures
        state.after_finalize(id).wf(),
{
    let after = state.after_finalize(id);
    assert forall|other: nat, side: bool| after.proposals.contains_key(other) implies {
        &&& (#[trigger] after.ballots(other, side)).finite()
        &&& after.proposals[other].tally(side) == after.ballots(other, side).len()
    } by {
        assert(after.ballots(other, side) =~= state.ballots(other, side));
    }
}

/// A call on the registry.
pub enum RegistryCall<A> {
    /// A call to create a proposal.
    Create { creator: A, description: Seq<char> },
    /// A call to vote on proposal `id`.
    Vote { voter: A, id: nat, choice: bool },
    /// A call to finalize proposal `id`.
    Finalize { id: nat },
}

impl<A> GovernanceState<A> {
    /// The registry after one call.
    pub open spec fn after(self, call: RegistryCall<A>) -> Self {
        match call {
            RegistryCall::Create { creator, description } => self.after_create(
                creator,
                description,
            ),
            RegistryCall::Vote { voter, id, choice } => self.after_vote(voter, id, choice),
            RegistryCall::Finalize { id } => self.after_finalize(id),
        }
    }

    /// The registry after the calls of `calls` were made in order.
    pub open spec fn after_all(self, calls: Seq<RegistryCall<A>>) -> Self
        decreases calls.len(),
    {
        if calls.len() == 0 {
            self
        } else {
            self.after_all(calls.drop_last()).after(calls.last())
        }
    }

    /// The ids that the creations among `calls` return, in the order of the
    /// calls.
    pub open spec fn created_ids(self, calls: Seq<RegistryCall<A>>) -> Seq<nat>
        decreases calls.len(),
    {
        if calls.len() == 0 {
            Seq::empty()
        } else {
            let earlier = self.created_ids(calls.drop_last());
            if calls.last() is Create {
                earlier.push(self.after_all(calls.drop_last()).next_id)
            } else {
                earlier
            }
        }
    }
}

/// Whatever calls are made, the registry stays well formed.
pub proof fn lemma_calls_keep_wf<A>(state: GovernanceState<A>, calls: Seq<RegistryCall<A>>)
    requires
        state.wf(),
    ensures
        state.after_all(calls).wf(),
    decreases calls.len(),
{
    if calls.len() > 0 {
        lemma_calls_keep_wf(state, calls.drop_last());
        let earlier = state.after_all(calls.drop_last());
        match calls.last() {
            RegistryCall::Create { creator, description } => {
                lemma_create_keeps_wf(earlier, creator, description);
            },
            RegistryCall::Vote { voter, id, choice } => {
                lemma_vote_keeps_wf(earlier, voter, id, choice);
            },
            RegistryCall::Finalize { id } => {
                lemma_finalize_keeps_wf(earlier, id);
            },
        }
    }
}

/// Sequential ids: whatever calls are made, the creations among them return
/// the ids from the counter upwards, each one more than the one before. On a
/// new registry the counter is 0, so the ids are 0, 1, 2 and so on.
pub proof fn lemma_ids_are_sequential<A>(state: GovernanceState<A>, calls: Seq<RegistryCall<A>>)
    ensures
        state.after_all(calls).next_id == state.next_id + state.created_ids(calls).len(),
        forall|i: int|
            0 <= i < state.created_ids(calls).len() ==> #[trigger] state.created_ids(calls)[i]
                == state.next_id + i,
        GovernanceState::<A>::empty().next_id == 0,
    decreases calls.len(),
{
    if calls.len() > 0 {
        lemma_ids_are_sequential(state, calls.drop_last());
    }
}

/// A vote on record stands: whatever calls are made, the record keeps the
/// choice it holds, a further vote of the same voter on the same proposal is
/// refused, and the refused call changes nothing.
pub proof fn lemma_vote_on_record_stands<A>(
    state: GovernanceState<A>,
    voter: A,
    id: nat,
    calls: Seq<RegistryCall<A>>,
    again: bool,
)
    requires
        state.votes.contains_key((voter, id)),
    ensures
        state.after_all(calls).votes.contains_key((voter, id)),
        state.after_all(calls).votes[(voter, id)] == state.votes[(voter, id)],
        state.after_all(calls).vote_outcome(voter, id) is Err,
        state.after_all(calls).after_vote(voter, id, again) == state.after_all(calls),
    decreases calls.len(),
{
    if calls.len() > 0 {
        lemma_vote_on_record_stands(state, voter, id, calls.drop_last(), again);
    }
}

/// One vote per voter: once a vote of `voter` on proposal `id` was counted,
/// the next attempt is refused with `AlreadyVoted`; and whatever calls are
/// made in between, the choice on record is the first one, a further attempt
/// is refused (with `AlreadyVoted` while the proposal is active, with
/// `ProposalFinalized` after that), and the refused call leaves every tally
/// as it was.
pub proof fn lemma_one_vote_per_voter<A>(
    state: GovernanceState<A>,
    voter: A,
    id: nat,
    choice: bool,
    calls: Seq<RegistryCall<A>>,
    again: bool,
)
    requires
        state.wf(),
        state.vote_outcome(voter, id) is Ok,
    ensures
        state.after_vote(voter, id, choice).vote_outcome(voter, id) == Err::<(), GovernanceError>(
            GovernanceError::AlreadyVoted,
        ),
        ({
            let later = state.after_vote(voter, id, choice).after_all(calls);
            &&& later.votes.contains_key((voter, id))
            &&& later.votes[(voter, id)] == choice
            &&& later.proposals.contains_key(id)
            &&& later.vote_outcome(voter, id) == Err::<(), GovernanceError>(
                if later.proposals[id].status == ProposalStatus::Active {
                    GovernanceError::AlreadyVoted
                } else {
                    GovernanceError::ProposalFinalized
                },
            )
            &&& later.after_vote(voter, id, again) == later
        }),
{
    let voted = state.after_vote(voter, id, choice);
    lemma_vote_keeps_wf(state, voter, id, choice);
    lemma_vote_on_record_stands(voted, voter, id, calls, again);
    lemma_calls_keep_wf(voted, calls);
}

/// Finalized is final: once a proposal is approved or rejected, whatever
/// calls are made, its record (status, tallies, text and creator) stays as
/// it is, and every vote on it and every attempt to finalize it is refused
/// with `ProposalFinalized`.
pub proof fn lemma_finalized_is_final<A>(
    state: GovernanceState<A>,
    id: nat,
    calls: Seq<RegistryCall<A>>,
)
    requires
        state.wf(),
        state.proposals.contains_key(id),
        state.proposals[id].status != ProposalStatus::Active,
    ensures
        state.after_all(calls).proposals.contains_key(id),
        state.after_all(calls).proposals[id] == state.proposals[id],
        forall|voter: A| #[trigger]
            state.after_all(calls).vote_outcome(voter, id) == Err::<(), GovernanceError>(
                GovernanceError::ProposalFinalized,
            ),
        state.after_all(calls).finalize_outcome(id) == Err::<ProposalStatus, GovernanceError>(
            GovernanceError::ProposalFinalized,
        ),
    decreases calls.len(),
{
    if calls.len() > 0 {
        lemma_finalized_is_final(state, id, calls.drop_last());
        lemma_calls_keep_wf(state, calls.drop_last());
    }
}

} // verus!
