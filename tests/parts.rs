use coconut_dkg::dealing::DealingLedger;
use coconut_dkg::dispute::{Proposal, ProposalKind, ProposalStatus};
use coconut_dkg::error::DkgError;
use coconut_dkg::registry::DealerRegistry;

#[test]
fn ledger_lists_by_epoch_and_dealer() {
    let mut l = DealingLedger::new();
    assert_eq!(l.submit(0, 1, format!("d1"), 0, vec![1], 2), Ok(()));
    assert_eq!(l.submit(0, 2, format!("d2"), 0, vec![2], 2), Ok(()));
    assert_eq!(l.submit(1, 1, format!("d1"), 0, vec![3], 2), Ok(()));
    assert_eq!(l.submit(0, 1, format!("d1"), 1, vec![4], 2), Ok(()));
    assert_eq!(l.submit(0, 1, format!("d1"), 1, vec![5], 2), Err(DkgError::AlreadySubmitted));
    assert_eq!(l.list(0, &"d1".to_string()), vec![(0, 0), (1, 3)]);
    assert!(l.status_of_address(1, &"d1".to_string(), 0));
    assert!(!l.status_of_address(1, &"d2".to_string(), 0));
    assert_eq!(l.dealings[3].commitment, vec![4]);
    assert!(l.is_complete(0, 1, 2));
    assert!(!l.is_complete(0, 2, 2));
    assert!(l.is_complete(5, 9, 0));
    assert!(l.status(1, 1, 0));
    assert!(!l.status(1, 2, 0));
}

#[test]
fn registry_deactivation_is_idempotent() {
    let mut r = DealerRegistry::new();
    for a in ["a", "b", "c"] {
        r.register(a.to_string(), "k".to_string(), "i".to_string(), "h".to_string(), true, 0)
            .unwrap();
    }
    assert_eq!(r.count_active(), 3);
    r.deactivate(2);
    r.deactivate(2);
    assert!(!r.is_active(2));
    assert!(r.is_active(1));
    assert!(!r.is_active(4));
    assert_eq!(r.count_active(), 2);
    assert_eq!(r.node_index_of(&"c".to_string()), Some(3));
    assert_eq!(r.list().len(), 3);
}

#[test]
fn proposal_closes_once_settled() {
    let mut p = Proposal::open(0, ProposalKind::Complaint, 1, 2, 0, 5);
    p.cast(true);
    p.cast(true);
    assert_eq!(p.status, ProposalStatus::Open);
    p.cast(true);
    assert_eq!(p.status, ProposalStatus::Passed);

    let mut q = Proposal::open(1, ProposalKind::Mismatch, 1, 2, 0, 5);
    q.cast(false);
    q.cast(false);
    q.cast(false);
    assert_eq!(q.status, ProposalStatus::Rejected);
}

#[test]
fn proposal_quorum_at_close() {
    let mut p = Proposal::open(0, ProposalKind::Complaint, 1, 2, 0, 5);
    p.cast(true);
    p.close();
    assert_eq!(p.status, ProposalStatus::Rejected);

    let mut q = Proposal::open(0, ProposalKind::Complaint, 1, 2, 0, 5);
    q.cast(true);
    q.cast(true);
    q.cast(false);
    q.close();
    assert_eq!(q.status, ProposalStatus::Passed);

    let none = Proposal::open(0, ProposalKind::Complaint, 1, 2, 0, 0);
    assert_eq!(none.status, ProposalStatus::Rejected);
}
