use ledger_runtime::governance::{GovernanceError, GovernancePallet, ProposalStatus};
use ledger_runtime::Runtime;

#[test]
fn test_governance_should_work() {
    let alice = 1u64;
    let bob = 2u64;
    let charlie = 3u64;

    let mut governance = GovernancePallet::<Runtime>::new();

    // Create a proposal
    let proposal_id = governance
        .create_proposal(alice, "Increase validator rewards".to_string())
        .unwrap();

    // Cast votes
    governance.vote(alice, proposal_id, true).unwrap(); // Yes vote
    governance.vote(bob, proposal_id, true).unwrap(); // Yes vote
    governance.vote(charlie, proposal_id, false).unwrap(); // No vote

    // Check proposal status before finalization
    let proposal = governance.get_proposal(proposal_id).unwrap();
    assert_eq!(proposal.yes_votes(), 2);
    assert_eq!(proposal.no_votes(), 1);
    assert_eq!(*proposal.description(), "Increase validator rewards".to_string());
    assert_eq!(proposal.creator(), alice);

    // Finalize proposal
    let status = governance.finalize_proposal(proposal_id).unwrap();
    assert!(matches!(status, ProposalStatus::Approved));

    // Check proposal is now approved
    let finalized_proposal = governance.get_proposal(proposal_id).unwrap();
    assert!(matches!(
        finalized_proposal.status(),
        ProposalStatus::Approved
    ));
}

#[test]
fn a_new_proposal_is_active_and_has_no_votes() {
    let mut governance = GovernancePallet::<Runtime>::new();
    assert_eq!(governance.next_proposal_id(), 0);
    assert!(governance.get_proposal(0).is_none());
    let id = governance.create_proposal(5, "Lower fees".to_string()).unwrap();
    assert_eq!(id, 0);
    let proposal = governance.get_proposal(id).unwrap();
    assert_eq!(proposal.yes_votes(), 0);
    assert_eq!(proposal.no_votes(), 0);
    assert_eq!(proposal.status(), ProposalStatus::Active);
    assert!(proposal.is_active());
    assert_eq!(proposal.creator(), 5);
    assert_eq!(proposal.description().as_str(), "Lower fees");
    assert!(governance.get_proposal(1).is_none());
}

#[test]
fn ids_are_handed_out_in_sequence_from_zero() {
    let mut governance = GovernancePallet::<Runtime>::new();
    assert_eq!(governance.create_proposal(1, "a".to_string()), Ok(0));
    assert_eq!(governance.create_proposal(2, "b".to_string()), Ok(1));
    assert_eq!(governance.vote(1, 0, true), Ok(()));
    assert_eq!(governance.finalize_proposal(0), Ok(ProposalStatus::Approved));
    assert_eq!(governance.create_proposal(1, "c".to_string()), Ok(2));
    assert_eq!(governance.next_proposal_id(), 3);
    assert_eq!(governance.get_proposal(0).unwrap().description().as_str(), "a");
    assert_eq!(governance.get_proposal(1).unwrap().description().as_str(), "b");
    assert_eq!(governance.get_proposal(2).unwrap().description().as_str(), "c");
    assert_eq!(governance.get_proposal(1).unwrap().creator(), 2);
}

#[test]
fn second_vote_of_a_voter_is_refused() {
    let alice = 1u64;
    let bob = 2u64;
    let mut governance = GovernancePallet::<Runtime>::new();
    let id = governance.create_proposal(alice, "Lower fees".to_string()).unwrap();
    assert_eq!(governance.vote(bob, id, true), Ok(()));
    assert_eq!(governance.vote(bob, id, false), Err(GovernanceError::AlreadyVoted));
    let proposal = governance.get_proposal(id).unwrap();
    assert_eq!(proposal.yes_votes(), 1);
    assert_eq!(proposal.no_votes(), 0);
    // The vote on record is the first one: the proposal is approved by it.
    assert_eq!(governance.finalize_proposal(id), Ok(ProposalStatus::Approved));
}

#[test]
fn a_voter_has_one_vote_on_each_proposal() {
    let mut governance = GovernancePallet::<Runtime>::new();
    let first = governance.create_proposal(1, "a".to_string()).unwrap();
    let second = governance.create_proposal(1, "b".to_string()).unwrap();
    assert_eq!(governance.vote(7, first, true), Ok(()));
    assert_eq!(governance.vote(7, second, false), Ok(()));
    assert_eq!(governance.vote(7, first, true), Err(GovernanceError::AlreadyVoted));
    assert_eq!(governance.vote(7, second, true), Err(GovernanceError::AlreadyVoted));
    assert_eq!(governance.get_proposal(first).unwrap().yes_votes(), 1);
    assert_eq!(governance.get_proposal(first).unwrap().no_votes(), 0);
    assert_eq!(governance.get_proposal(second).unwrap().yes_votes(), 0);
    assert_eq!(governance.get_proposal(second).unwrap().no_votes(), 1);
}

#[test]
fn calls_on_an_unknown_proposal_are_refused() {
    let mut governance = GovernancePallet::<Runtime>::new();
    assert_eq!(governance.vote(1, 0, true), Err(GovernanceError::ProposalNotFound));
    assert_eq!(governance.finalize_proposal(0), Err(GovernanceError::ProposalNotFound));
    governance.create_proposal(1, "a".to_string()).unwrap();
    assert_eq!(governance.vote(1, 1, true), Err(GovernanceError::ProposalNotFound));
    assert_eq!(governance.finalize_proposal(1), Err(GovernanceError::ProposalNotFound));
    assert_eq!(governance.next_proposal_id(), 1);
}

#[test]
fn a_tie_is_rejected() {
    let mut governance = GovernancePallet::<Runtime>::new();
    let id = governance.create_proposal(1, "a".to_string()).unwrap();
    assert_eq!(governance.vote(1, id, true), Ok(()));
    assert_eq!(governance.vote(2, id, false), Ok(()));
    assert_eq!(governance.finalize_proposal(id), Ok(ProposalStatus::Rejected));
    assert_eq!(governance.get_proposal(id).unwrap().status(), ProposalStatus::Rejected);
}

#[test]
fn a_proposal_without_votes_is_rejected() {
    let mut governance = GovernancePallet::<Runtime>::new();
    let id = governance.create_proposal(1, "a".to_string()).unwrap();
    assert_eq!(governance.finalize_proposal(id), Ok(ProposalStatus::Rejected));
}

#[test]
fn more_no_than_yes_is_rejected() {
    let mut governance = GovernancePallet::<Runtime>::new();
    let id = governance.create_proposal(1, "a".to_string()).unwrap();
    assert_eq!(governance.vote(1, id, false), Ok(()));
    assert_eq!(governance.vote(2, id, false), Ok(()));
    assert_eq!(governance.vote(3, id, true), Ok(()));
    assert_eq!(governance.finalize_proposal(id), Ok(ProposalStatus::Rejected));
}

#[test]
fn a_finalized_proposal_takes_no_vote_and_no_second_verdict() {
    let mut governance = GovernancePallet::<Runtime>::new();
    let id = governance
        .create_proposal(1, "Increase validator rewards".to_string())
        .unwrap();
    assert_eq!(governance.vote(1, id, true), Ok(()));
    assert_eq!(governance.vote(2, id, true), Ok(()));
    assert_eq!(governance.vote(3, id, false), Ok(()));
    assert_eq!(governance.finalize_proposal(id), Ok(ProposalStatus::Approved));

    // A new voter, a voter on record, and a second attempt to finalize.
    assert_eq!(governance.vote(4, id, false), Err(GovernanceError::ProposalFinalized));
    assert_eq!(governance.vote(1, id, false), Err(GovernanceError::ProposalFinalized));
    assert_eq!(governance.finalize_proposal(id), Err(GovernanceError::ProposalFinalized));

    let proposal = governance.get_proposal(id).unwrap();
    assert_eq!(proposal.status(), ProposalStatus::Approved);
    assert!(!proposal.is_active());
    assert_eq!(proposal.yes_votes(), 2);
    assert_eq!(proposal.no_votes(), 1);
    assert_eq!(proposal.creator(), 1);
    assert_eq!(proposal.description().as_str(), "Increase validator rewards");
}

#[test]
fn a_rejected_proposal_stays_rejected() {
    let mut governance = GovernancePallet::<Runtime>::new();
    let id = governance.create_proposal(1, "a".to_string()).unwrap();
    assert_eq!(governance.finalize_proposal(id), Ok(ProposalStatus::Rejected));
    assert_eq!(governance.vote(1, id, true), Err(GovernanceError::ProposalFinalized));
    assert_eq!(governance.vote(2, id, true), Err(GovernanceError::ProposalFinalized));
    assert_eq!(governance.finalize_proposal(id), Err(GovernanceError::ProposalFinalized));
    let proposal = governance.get_proposal(id).unwrap();
    assert_eq!(proposal.status(), ProposalStatus::Rejected);
    assert_eq!(proposal.yes_votes(), 0);
    assert_eq!(proposal.no_votes(), 0);
}

#[test]
fn finalizing_one_proposal_leaves_the_others_open() {
    let mut governance = GovernancePallet::<Runtime>::new();
    let first = governance.create_proposal(1, "a".to_string()).unwrap();
    let second = governance.create_proposal(1, "b".to_string()).unwrap();
    assert_eq!(governance.vote(1, first, true), Ok(()));
    assert_eq!(governance.finalize_proposal(first), Ok(ProposalStatus::Approved));
    assert_eq!(governance.get_proposal(second).unwrap().status(), ProposalStatus::Active);
    assert_eq!(governance.vote(1, second, false), Ok(()));
    assert_eq!(governance.get_proposal(second).unwrap().no_votes(), 1);
    assert_eq!(governance.get_proposal(first).unwrap().yes_votes(), 1);
    assert_eq!(governance.get_proposal(first).unwrap().no_votes(), 0);
}

#[test]
fn governance_errors_have_a_text() {
    assert_eq!(GovernanceError::ProposalNotFound.message(), "Proposal does not exist");
    assert_eq!(
        GovernanceError::ProposalFinalized.message(),
        "Cannot vote on finalized proposal"
    );
    assert_eq!(
        GovernanceError::AlreadyVoted.message(),
        "Voter has already voted on this proposal"
    );
}
