use coconut_dkg::epoch::{threshold_for, EpochState};

#[test]
fn next_walks_the_order() {
    assert_eq!(EpochState::PublicKeySubmission.next(), Some(EpochState::DealingExchange));
    assert_eq!(EpochState::DealingExchange.next(), Some(EpochState::ComplaintSubmission));
    assert_eq!(EpochState::ComplaintSubmission.next(), Some(EpochState::ComplaintVoting));
    assert_eq!(EpochState::ComplaintVoting.next(), Some(EpochState::VerificationKeySubmission));
    assert_eq!(
        EpochState::VerificationKeySubmission.next(),
        Some(EpochState::VerificationKeyMismatchSubmission)
    );
    assert_eq!(
        EpochState::VerificationKeyMismatchSubmission.next(),
        Some(EpochState::VerificationKeyMismatchVoting)
    );
    assert_eq!(EpochState::VerificationKeyMismatchVoting.next(), Some(EpochState::InProgress));
    assert_eq!(EpochState::InProgress.next(), None);
}

#[test]
fn order_matches_declaration() {
    assert!(EpochState::PublicKeySubmission < EpochState::DealingExchange);
    assert!(EpochState::VerificationKeyMismatchVoting < EpochState::InProgress);
}

#[test]
fn all_until_full_range() {
    let all = EpochState::PublicKeySubmission.all_until(EpochState::InProgress);
    assert_eq!(
        all,
        vec![
            EpochState::PublicKeySubmission,
            EpochState::DealingExchange,
            EpochState::ComplaintSubmission,
            EpochState::ComplaintVoting,
            EpochState::VerificationKeySubmission,
            EpochState::VerificationKeyMismatchSubmission,
            EpochState::VerificationKeyMismatchVoting,
            EpochState::InProgress,
        ]
    );
}

#[test]
fn all_until_same_state() {
    assert_eq!(
        EpochState::ComplaintVoting.all_until(EpochState::ComplaintVoting),
        vec![EpochState::ComplaintVoting]
    );
}

#[test]
fn all_until_middle() {
    assert_eq!(
        EpochState::DealingExchange.all_until(EpochState::ComplaintVoting),
        vec![
            EpochState::DealingExchange,
            EpochState::ComplaintSubmission,
            EpochState::ComplaintVoting,
        ]
    );
}

#[test]
fn state_names() {
    assert_eq!(EpochState::PublicKeySubmission.to_string(), "PublicKeySubmission");
    assert_eq!(
        EpochState::VerificationKeyMismatchSubmission.to_string(),
        "VerificationKeyMismatchSubmission"
    );
    assert_eq!(EpochState::InProgress.as_str(), "InProgress");
}

#[test]
fn threshold_values() {
    assert_eq!(threshold_for(0), 1);
    assert_eq!(threshold_for(1), 1);
    assert_eq!(threshold_for(2), 2);
    assert_eq!(threshold_for(3), 3);
    assert_eq!(threshold_for(4), 3);
    assert_eq!(threshold_for(5), 4);
    assert_eq!(threshold_for(6), 5);
    assert_eq!(threshold_for(u64::MAX), 12297829382473034411);
}
