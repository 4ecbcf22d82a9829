use coconut_dkg::coordinator::{DkgConfig, DkgCoordinator};
use coconut_dkg::dispute::ProposalStatus;
use coconut_dkg::epoch::EpochState;
use coconut_dkg::error::DkgError;

const NAMES: [&str; 4] = ["alice", "bob", "carol", "dave"];

fn config(dealings: u64) -> DkgConfig {
    DkgConfig {
        dealings_per_dealer: dealings,
        public_key_submission_secs: 10,
        dealing_exchange_secs: 10,
        complaint_submission_secs: 10,
        complaint_voting_secs: 10,
        verification_key_submission_secs: 10,
        verification_key_mismatch_submission_secs: 10,
        verification_key_mismatch_voting_secs: 10,
    }
}

fn advance(c: &mut DkgCoordinator, now: u64) -> Result<EpochState, DkgError> {
    let e = c.current();
    c.try_advance(e.epoch_id, e.state, now)
}

fn addr(i: usize) -> String {
    NAMES[i].to_string()
}

fn register(c: &mut DkgCoordinator, i: usize) -> Result<u64, DkgError> {
    c.register_dealer(addr(i), format!("bte-{i}"), format!("id-{i}"), format!("host-{i}:8000"), true)
}

/// Four registered dealers, in dealing exchange at time 10.
fn four_dealers(dealings: u64) -> DkgCoordinator {
    let mut c = DkgCoordinator::new(config(dealings), 0);
    for i in 0..4 {
        assert_eq!(register(&mut c, i), Ok(i as u64 + 1));
    }
    assert_eq!(advance(&mut c, 10), Ok(EpochState::DealingExchange));
    c
}

/// Everyone dealt; complaint submission entered at time 11.
fn after_dealings() -> DkgCoordinator {
    let mut c = four_dealers(1);
    for i in 0..4 {
        assert_eq!(c.submit_dealing(&addr(i), 0, vec![i as u8]), Ok(()));
    }
    assert_eq!(advance(&mut c, 11), Ok(EpochState::ComplaintSubmission));
    c
}

fn submit_all_shares(c: &mut DkgCoordinator, who: &[usize]) -> Vec<u64> {
    who.iter().map(|&i| c.submit_verification_key_share(&addr(i), vec![0xa0 + i as u8]).unwrap()).collect()
}

#[test]
fn happy_path_four_dealers() {
    let mut c = after_dealings();
    assert_eq!(c.current_threshold(), Some(3));
    assert_eq!(advance(&mut c, 21), Ok(EpochState::ComplaintVoting));
    assert_eq!(advance(&mut c, 22), Ok(EpochState::VerificationKeySubmission));
    let ids = submit_all_shares(&mut c, &[0, 1, 2, 3]);
    assert_eq!(advance(&mut c, 23), Ok(EpochState::VerificationKeyMismatchSubmission));
    assert_eq!(advance(&mut c, 33), Ok(EpochState::VerificationKeyMismatchVoting));
    for &id in &ids {
        for i in 0..3 {
            assert_eq!(c.vote_proposal(&addr(i), id, true), Ok(()));
        }
        assert_eq!(c.proposal_status(id), Some(ProposalStatus::Passed));
    }
    assert_eq!(advance(&mut c, 34), Ok(EpochState::InProgress));
    for &id in &ids {
        assert_eq!(c.proposal_status(id), Some(ProposalStatus::Executed));
    }
    for n in 1..=4 {
        assert_eq!(c.verification_key_share(n).map(|(_, v)| v), Some(true));
    }
    assert_eq!(c.verification_key_share(2).map(|(d, _)| d.clone()), Some(vec![0xa1]));
    assert_eq!(c.admitted_shares(), vec![1, 2, 3, 4]);
    assert_eq!(c.current().state, EpochState::InProgress);
}

#[test]
fn malicious_dealer_is_excluded() {
    let mut c = after_dealings();
    let mut complaints = Vec::new();
    for i in [0usize, 1, 3] {
        complaints.push(c.submit_complaint(&addr(i), 3, 0, vec![1, 2, 3]).unwrap());
    }
    assert_eq!(advance(&mut c, 21), Ok(EpochState::ComplaintVoting));
    for &id in &complaints {
        assert_eq!(c.vote_proposal(&addr(2), id, false), Ok(()));
        for i in [0usize, 1, 3] {
            assert_eq!(c.vote_proposal(&addr(i), id, true), Ok(()));
        }
        assert_eq!(c.proposal_status(id), Some(ProposalStatus::Passed));
    }
    assert_eq!(advance(&mut c, 22), Ok(EpochState::VerificationKeySubmission));
    assert_eq!(
        c.submit_verification_key_share(&addr(2), vec![9]),
        Err(DkgError::UnauthorizedDealer)
    );
    let ids = submit_all_shares(&mut c, &[0, 1, 3]);
    assert_eq!(advance(&mut c, 23), Ok(EpochState::VerificationKeyMismatchSubmission));
    assert_eq!(advance(&mut c, 33), Ok(EpochState::VerificationKeyMismatchVoting));
    for &id in &ids {
        for i in [0usize, 1, 3] {
            let _ = c.vote_proposal(&addr(i), id, true);
        }
    }
    assert_eq!(advance(&mut c, 34), Ok(EpochState::InProgress));
    assert_eq!(c.admitted_shares(), vec![1, 2, 4]);
    assert_eq!(c.current_threshold(), Some(3));
}

#[test]
fn missing_dealer_advances_on_deadline() {
    let mut c = four_dealers(1);
    for i in 0..3 {
        assert_eq!(c.submit_dealing(&addr(i), 0, vec![1]), Ok(()));
    }
    assert_eq!(advance(&mut c, 15), Err(DkgError::PhaseNotReady));
    assert_eq!(advance(&mut c, 20), Ok(EpochState::ComplaintSubmission));
    assert!(!c.dealing_status(0, &addr(3), 0));
    assert_eq!(c.current_threshold(), Some(3));
}

#[test]
fn tie_vote_is_rejected() {
    let mut c = after_dealings();
    let id = c.submit_complaint(&addr(0), 2, 0, vec![7]).unwrap();
    assert_eq!(advance(&mut c, 21), Ok(EpochState::ComplaintVoting));
    assert_eq!(c.vote_proposal(&addr(0), id, true), Ok(()));
    assert_eq!(c.vote_proposal(&addr(2), id, true), Ok(()));
    assert_eq!(c.vote_proposal(&addr(1), id, false), Ok(()));
    assert_eq!(c.vote_proposal(&addr(3), id, false), Ok(()));
    assert_eq!(c.proposal_status(id), Some(ProposalStatus::Rejected));
    assert_eq!(advance(&mut c, 22), Ok(EpochState::VerificationKeySubmission));
    assert_eq!(c.submit_verification_key_share(&addr(1), vec![1]).is_ok(), true);
}

#[test]
fn tie_at_deadline_is_rejected() {
    let mut c = after_dealings();
    let id = c.submit_complaint(&addr(0), 2, 0, vec![7]).unwrap();
    assert_eq!(advance(&mut c, 21), Ok(EpochState::ComplaintVoting));
    assert_eq!(c.vote_proposal(&addr(0), id, true), Ok(()));
    assert_eq!(c.vote_proposal(&addr(1), id, false), Ok(()));
    assert_eq!(advance(&mut c, 25), Err(DkgError::PhaseNotReady));
    assert_eq!(advance(&mut c, 31), Ok(EpochState::VerificationKeySubmission));
    assert_eq!(c.proposal_status(id), Some(ProposalStatus::Rejected));
}

#[test]
fn mismatch_invalidates_share() {
    let mut c = after_dealings();
    assert_eq!(advance(&mut c, 21), Ok(EpochState::ComplaintVoting));
    assert_eq!(advance(&mut c, 22), Ok(EpochState::VerificationKeySubmission));
    let ids = submit_all_shares(&mut c, &[0, 1, 2, 3]);
    assert_eq!(advance(&mut c, 23), Ok(EpochState::VerificationKeyMismatchSubmission));
    let m = c.submit_mismatch(&addr(0), 2, vec![0xde, 0xad]).unwrap();
    assert_eq!(advance(&mut c, 33), Ok(EpochState::VerificationKeyMismatchVoting));
    for i in [0usize, 2, 3] {
        assert_eq!(c.vote_proposal(&addr(i), m, true), Ok(()));
    }
    assert_eq!(c.proposal_status(m), Some(ProposalStatus::Passed));
    for &id in &ids {
        for i in 0..4 {
            let _ = c.vote_proposal(&addr(i), id, true);
        }
    }
    assert_eq!(advance(&mut c, 34), Ok(EpochState::InProgress));
    assert_eq!(c.admitted_shares(), vec![1, 3, 4]);
    assert_eq!(c.proposal_status(m), Some(ProposalStatus::Executed));
    assert_eq!(c.verification_key_share(2).map(|(_, v)| v), Some(false));
    assert_eq!(c.verification_key_share(1).map(|(_, v)| v), Some(true));
    assert_eq!(c.verification_key_share(3).map(|(_, v)| v), Some(true));
    assert_eq!(c.verification_key_share(4).map(|(_, v)| v), Some(true));
}

#[test]
fn advance_before_ready() {
    let mut c = four_dealers(2);
    for i in 0..3 {
        assert_eq!(c.submit_dealing(&addr(i), 0, vec![1]), Ok(()));
        assert_eq!(c.submit_dealing(&addr(i), 1, vec![2]), Ok(()));
    }
    let before = c.current();
    assert_eq!(advance(&mut c, 12), Err(DkgError::PhaseNotReady));
    assert_eq!(c.current(), before);
    assert_eq!(c.current().state, EpochState::DealingExchange);
}

#[test]
fn node_indices_are_contiguous() {
    let mut c = DkgCoordinator::new(config(1), 0);
    for i in 0..4 {
        register(&mut c, i).unwrap();
    }
    let idx: Vec<u64> = c.current_dealers().iter().map(|d| d.node_index).collect();
    assert_eq!(idx, vec![1, 2, 3, 4]);
}

#[test]
fn register_then_query() {
    let mut c = DkgCoordinator::new(config(1), 0);
    register(&mut c, 0).unwrap();
    let n = register(&mut c, 1).unwrap();
    let d = c.dealer_details(&addr(1)).unwrap();
    assert_eq!(d.node_index, n);
    assert_eq!(d.announce_address, "host-1:8000");
    assert!(c.dealer_details(&"nobody".to_string()).is_none());
}

#[test]
fn registration_errors() {
    let mut c = DkgCoordinator::new(config(1), 0);
    register(&mut c, 0).unwrap();
    assert_eq!(register(&mut c, 0), Err(DkgError::DuplicateRegistration));
    assert_eq!(
        c.register_dealer(addr(1), "k".to_string(), "i".to_string(), "a".to_string(), false),
        Err(DkgError::InvalidProof)
    );
    assert_eq!(advance(&mut c, 10), Ok(EpochState::DealingExchange));
    assert_eq!(
        register(&mut c, 2),
        Err(DkgError::InvalidEpochState { current: EpochState::DealingExchange })
    );
}

#[test]
fn empty_registration_does_not_advance() {
    let mut c = DkgCoordinator::new(config(1), 0);
    assert_eq!(advance(&mut c, 100), Err(DkgError::PhaseNotReady));
    assert_eq!(c.current_threshold(), None);
}

#[test]
fn dealing_submitted_once() {
    let mut c = four_dealers(2);
    assert_eq!(c.submit_dealing(&addr(0), 1, vec![1]), Ok(()));
    assert!(c.dealing_status(0, &addr(0), 1));
    assert!(!c.dealing_status(0, &addr(0), 0));
    assert_eq!(c.submit_dealing(&addr(0), 1, vec![2]), Err(DkgError::AlreadySubmitted));
    assert_eq!(c.submit_dealing(&addr(0), 2, vec![2]), Err(DkgError::IndexOutOfBounds));
    assert_eq!(
        c.submit_dealing(&"mallory".to_string(), 0, vec![2]),
        Err(DkgError::UnauthorizedDealer)
    );
}

#[test]
fn proposal_errors() {
    let mut c = after_dealings();
    assert_eq!(c.submit_complaint(&addr(0), 9, 0, vec![]), Err(DkgError::NotAMember));
    let id = c.submit_complaint(&addr(0), 2, 0, vec![]).unwrap();
    assert_eq!(c.submit_complaint(&addr(0), 2, 0, vec![]), Err(DkgError::AlreadySubmitted));
    assert_eq!(
        c.vote_proposal(&addr(1), id, true),
        Err(DkgError::InvalidEpochState { current: EpochState::ComplaintSubmission })
    );
    assert_eq!(advance(&mut c, 21), Ok(EpochState::ComplaintVoting));
    assert_eq!(c.vote_proposal(&addr(1), 99, true), Err(DkgError::ProposalNotFound));
    assert_eq!(c.execute_proposal(id), Err(DkgError::ProposalNotPassed));
    assert_eq!(c.vote_proposal(&addr(1), id, true), Ok(()));
    assert_eq!(c.vote_proposal(&addr(1), id, true), Err(DkgError::AlreadyVoted));
    assert_eq!(c.vote_proposal(&addr(0), id, true), Ok(()));
    assert_eq!(c.vote_proposal(&addr(3), id, true), Ok(()));
    assert_eq!(c.vote_proposal(&addr(2), id, false), Err(DkgError::ProposalClosed));
    assert_eq!(c.execute_proposal(id), Ok(()));
    assert_eq!(c.execute_proposal(id), Err(DkgError::AlreadyExecuted));
    assert_eq!(c.list_proposals().len(), 1);
}

#[test]
fn terminal_and_reset() {
    let mut c = after_dealings();
    assert_eq!(c.reset(vec![], 0), Err(DkgError::InvalidTransition));
    for now in [21, 22, 32, 42, 52] {
        assert!(advance(&mut c, now).is_ok());
    }
    assert_eq!(c.current().state, EpochState::InProgress);
    assert_eq!(advance(&mut c, 100), Err(DkgError::TerminalState));
    let e = c.reset(vec![addr(0), addr(1)], 100).unwrap();
    assert_eq!(e.epoch_id, 1);
    assert_eq!(e.state, EpochState::PublicKeySubmission);
    assert_eq!(e.deadline, 110);
    assert_eq!(e.threshold, None);
    assert!(c.current_dealers().is_empty());
    assert!(c.dealing_status(0, &addr(0), 0));
    assert_eq!(register(&mut c, 2), Ok(1));
}

#[test]
fn advancing_is_deterministic() {
    let mut a = four_dealers(1);
    let mut b = four_dealers(1);
    assert_eq!(advance(&mut a, 20), advance(&mut b, 20));
    assert_eq!(a.current(), b.current());
    assert_eq!(a.current().state, EpochState::ComplaintSubmission);
    assert_eq!(a.current().deadline, 30);
}

#[test]
fn vote_order_does_not_matter() {
    let orders: [[(usize, bool); 3]; 3] = [
        [(0, true), (1, false), (3, true)],
        [(1, false), (3, true), (0, true)],
        [(3, true), (0, true), (1, false)],
    ];
    let mut outcomes = Vec::new();
    for order in orders {
        let mut c = after_dealings();
        let id = c.submit_complaint(&addr(0), 3, 0, vec![]).unwrap();
        advance(&mut c, 21).unwrap();
        for (v, yes) in order {
            let _ = c.vote_proposal(&addr(v), id, yes);
        }
        advance(&mut c, 31).unwrap();
        outcomes.push(c.proposal_status(id));
    }
    assert_eq!(outcomes[0], Some(ProposalStatus::Executed));
    assert_eq!(outcomes[0], outcomes[1]);
    assert_eq!(outcomes[1], outcomes[2]);
}

#[test]
fn repeated_advance_is_stale() {
    let mut c = after_dealings();
    let seen = c.current();
    assert_eq!(c.try_advance(seen.epoch_id, seen.state, 21), Ok(EpochState::ComplaintVoting));
    let after = c.current();
    assert_eq!(c.try_advance(seen.epoch_id, seen.state, 21), Err(DkgError::Stale));
    assert_eq!(c.current(), after);
    assert_eq!(c.try_advance(seen.epoch_id + 1, after.state, 21), Err(DkgError::Stale));
    assert_eq!(c.current(), after);
    assert_eq!(c.current_threshold(), Some(3));
}

#[test]
fn dealings_listed_by_address() {
    let mut c = four_dealers(2);
    assert_eq!(c.submit_dealing(&addr(1), 1, vec![5]), Ok(()));
    assert_eq!(c.submit_dealing(&addr(1), 0, vec![6]), Ok(()));
    assert_eq!(c.submit_dealing(&addr(1), 1, vec![7]), Err(DkgError::AlreadySubmitted));
    let listed = c.dealings(0, &addr(1));
    assert_eq!(listed.iter().map(|(i, _)| *i).collect::<Vec<_>>(), vec![1, 0]);
    assert_eq!(c.ledger.dealings[listed[0].1].commitment, vec![5]);
    assert!(c.dealings(0, &addr(0)).is_empty());
}

#[test]
fn past_epoch_status_follows_address() {
    let mut c = after_dealings();
    for now in [21, 22, 32, 42, 52] {
        assert!(advance(&mut c, now).is_ok());
    }
    c.reset(vec![], 100).unwrap();
    // carol registers first in the new epoch and takes node index 1
    assert_eq!(register(&mut c, 2), Ok(1));
    assert!(c.dealing_status(0, &addr(0), 0));
    assert!(c.dealing_status(0, &addr(2), 0));
    assert!(!c.dealing_status(1, &addr(2), 0));
}
