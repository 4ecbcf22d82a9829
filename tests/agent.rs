use coconut_dkg::agent::{classify, decide, still_current, Action, Observation, Reaction};
use coconut_dkg::epoch::EpochState;
use coconut_dkg::error::DkgError;

fn obs(state: EpochState) -> Observation {
    Observation {
        state,
        registered: true,
        prior_key_available: false,
        dealings_done: vec![true, true],
        peers_verified: true,
        queued_complaints: vec![],
        unvoted_proposals: vec![],
        share_submitted: true,
        mismatched_peers: vec![],
    }
}

#[test]
fn registers_when_unregistered() {
    let mut o = obs(EpochState::PublicKeySubmission);
    o.registered = false;
    assert_eq!(decide(&o), Action::Register { reuse_key: false });
    o.prior_key_available = true;
    assert_eq!(decide(&o), Action::Register { reuse_key: true });
    o.registered = true;
    assert_eq!(decide(&o), Action::AttemptAdvance);
}

#[test]
fn submits_first_missing_dealing() {
    let mut o = obs(EpochState::DealingExchange);
    o.dealings_done = vec![true, false, false];
    assert_eq!(decide(&o), Action::SubmitDealing { index: 1 });
    o.dealings_done = vec![true, true, true];
    o.peers_verified = false;
    assert_eq!(decide(&o), Action::VerifyDealings);
    o.peers_verified = true;
    assert_eq!(decide(&o), Action::AttemptAdvance);
}

#[test]
fn complaint_and_votes() {
    let mut o = obs(EpochState::ComplaintSubmission);
    o.queued_complaints = vec![3, 4];
    assert_eq!(decide(&o), Action::SubmitComplaint { accused: 3 });
    let mut v = obs(EpochState::ComplaintVoting);
    v.unvoted_proposals = vec![(7, false), (8, true)];
    assert_eq!(decide(&v), Action::Vote { proposal_id: 7, yes: false });
    v.state = EpochState::VerificationKeyMismatchVoting;
    assert_eq!(decide(&v), Action::Vote { proposal_id: 7, yes: false });
}

#[test]
fn share_mismatch_and_idle() {
    let mut o = obs(EpochState::VerificationKeySubmission);
    o.share_submitted = false;
    assert_eq!(decide(&o), Action::SubmitShare);
    let mut m = obs(EpochState::VerificationKeyMismatchSubmission);
    m.mismatched_peers = vec![2];
    assert_eq!(decide(&m), Action::SubmitMismatch { accused: 2 });
    assert_eq!(decide(&obs(EpochState::InProgress)), Action::Idle);
}

#[test]
fn rejections_are_classified() {
    assert_eq!(classify(DkgError::AlreadySubmitted, true), Reaction::Ignore);
    assert_eq!(classify(DkgError::AlreadySubmitted, false), Reaction::Abandon);
    assert_eq!(
        classify(DkgError::InvalidEpochState { current: EpochState::DealingExchange }, false),
        Reaction::Resync
    );
    assert_eq!(classify(DkgError::UnauthorizedDealer, false), Reaction::Abandon);
    assert_eq!(classify(DkgError::InvalidProof, false), Reaction::Abandon);
    assert_eq!(classify(DkgError::IndexOutOfBounds, false), Reaction::Halt);
}

#[test]
fn stale_work_is_dropped() {
    assert!(still_current(2, EpochState::DealingExchange, 2, EpochState::DealingExchange));
    assert!(!still_current(1, EpochState::DealingExchange, 2, EpochState::DealingExchange));
    assert!(!still_current(2, EpochState::DealingExchange, 2, EpochState::ComplaintSubmission));
}
