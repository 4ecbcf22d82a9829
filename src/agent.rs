use vstd::prelude::*;

use crate::epoch::EpochState;
use crate::error::DkgError;

verus! {

/// What a participant has read from the chain and its keystore before choosing its
/// next action.
pub struct Observation {
    pub state: EpochState,
    /// Whether this participant is registered as a dealer of the current epoch.
    pub registered: bool,
    /// Whether the epoch was opened by a reset and the keystore holds key material from
    /// the epoch before.
    pub prior_key_available: bool,
    /// For each of its dealing indices, whether the dealing is on chain.
    pub dealings_done: Vec<bool>,
    /// Whether it has checked the other dealers' dealings.
    pub peers_verified: bool,
    /// Dealers (by node index) against whom a complaint is queued and not yet submitted.
    pub queued_complaints: Vec<u64>,
    /// Open proposals of the current voting round it has not voted on, with its verdict.
    pub unvoted_proposals: Vec<(u64, bool)>,
    /// Whether its verification-key share is on chain.
    pub share_submitted: bool,
    /// Dealers whose share does not match its own derivation and that it has not reported.
    pub mismatched_peers: Vec<u64>,
}

/// The one action a participant takes next.
#[derive(Clone, Copy, Debug, PartialEq, Eq, Structural)]
pub enum Action {
    /// Register, with a proof for the key: the key from the epoch before when `reuse_key`,
    /// else a freshly generated one.
    Register { reuse_key: bool },
    /// Nothing to submit: wait, or ask the chain to advance.
    AttemptAdvance,
    /// Generate and submit the dealing with this index.
    SubmitDealing { index: u64 },
    /// Check the other dealers' dealings and queue complaints.
    VerifyDealings,
    SubmitComplaint { accused: u64 },
    Vote { proposal_id: u64, yes: bool },
    /// Derive the partial verification key from the accepted dealings and submit it.
    SubmitShare,
    SubmitMismatch { accused: u64 },
    /// The epoch is in progress: serve credential issuance.
    Idle,
}

/// The position of the first `false`, if any.
pub open spec fn first_false(s: Seq<bool>) -> Option<int> {
    if exists|i: int| 0 <= i < s.len() && !s[i] {
        Some(choose|i: int| 0 <= i < s.len() && !s[i] && forall|k: int| 0 <= k < i ==> s[k])
    } else {
        None
    }
}

/// The action the decision table prescribes for an observation.
pub open spec fn prescribed(
    state: EpochState,
    registered: bool,
    prior_key_available: bool,
    dealings_done: Seq<bool>,
    peers_verified: bool,
    queued_complaints: Seq<u64>,
    unvoted: Seq<(u64, bool)>,
    share_submitted: bool,
    mismatched: Seq<u64>,
) -> Action {
    let vote_or_wait = if unvoted.len() > 0 {
        Action::Vote { proposal_id: unvoted[0].0, yes: unvoted[0].1 }
    } else {
        Action::AttemptAdvance
    };
    match state {
        EpochState::PublicKeySubmission => if registered {
            Action::AttemptAdvance
        } else {
            Action::Register { reuse_key: prior_key_available }
        },
        EpochState::DealingExchange => match first_false(dealings_done) {
            Some(i) => Action::SubmitDealing { index: i as u64 },
            None => if peers_verified {
                Action::AttemptAdvance
            } else {
                Action::VerifyDealings
            },
        },
        EpochState::ComplaintSubmission => if queued_complaints.len() > 0 {
            Action::SubmitComplaint { accused: queued_complaints[0] }
        } else {
            Action::AttemptAdvance
        },
        EpochState::ComplaintVoting => vote_or_wait,
        EpochState::VerificationKeySubmission => if share_submitted {
            Action::AttemptAdvance
        } else {
            Action::SubmitShare
        },
        EpochState::VerificationKeyMismatchSubmission => if mismatched.len() > 0 {
            Action::SubmitMismatch { accused: mismatched[0] }
        } else {
            Action::AttemptAdvance
        },
        EpochState::VerificationKeyMismatchVoting => vote_or_wait,
        EpochState::InProgress => Action::Idle,
    }
}

/// The index of the first dealing not yet on chain.
fn first_undelivered(done: &Vec<bool>) -> (r: Option<u64>)
    requires
        done@.len() <= u64::MAX,
    ensures
        match first_false(done@) {
            Some(i) => r == Some(i as u64),
            None => r is None,
        },
{
    let mut i: usize = 0;
    while i < done.len()
        invariant
            i <= done@.len(),
            forall|k: int| 0 <= k < i ==> done@[k],
        decreases done@.len() - i,
    {
        if !done[i] {
            proof {
                let j = choose|j: int| 0 <= j < done@.len() && !done@[j] && forall|k: int| 0 <= k < j ==> done@[k];
                if j < i {
                    assert(done@[j]);
                } else if j > i {
                    assert(done@[i as int]);
                }
            }
            return Some(i as u64);
        }
        i = i + 1;
    }
    None
}

/// Chooses exactly one action from an observation, by the decision table of the phase.
pub fn decide(obs: &Observation) -> (r: Action)
    requires
        obs.dealings_done@.len() <= u64::MAX,
    ensures
        r == prescribed(
            obs.state,
            obs.registered,
            obs.prior_key_available,
            obs.dealings_done@,
            obs.peers_verified,
            obs.queued_complaints@,
            obs.unvoted_proposals@,
            obs.share_submitted,
            obs.mismatched_peers@,
        ),
{
    match obs.state {
        EpochState::PublicKeySubmission => if obs.registered {
            Action::AttemptAdvance
        } else {
            Action::Register { reuse_key: obs.prior_key_available }
        },
        EpochState::DealingExchange => match first_undelivered(&obs.dealings_done) {
            Some(i) => Action::SubmitDealing { index: i },
            None => if obs.peers_verified {
                Action::AttemptAdvance
            } else {
                Action::VerifyDealings
            },
        },
        EpochState::ComplaintSubmission => if obs.queued_complaints.len() > 0 {
            Action::SubmitComplaint { accused: obs.queued_complaints[0] }
        } else {
            Action::AttemptAdvance
        },
        EpochState::ComplaintVoting | EpochState::VerificationKeyMismatchVoting => if obs.unvoted_proposals.len() > 0 {
            let (id, yes) = obs.unvoted_proposals[0];
            Action::Vote { proposal_id: id, yes }
        } else {
            Action::AttemptAdvance
        },
        EpochState::VerificationKeySubmission => if obs.share_submitted {
            Action::AttemptAdvance
        } else {
            Action::SubmitShare
        },
        EpochState::VerificationKeyMismatchSubmission => if obs.mismatched_peers.len() > 0 {
            Action::SubmitMismatch { accused: obs.mismatched_peers[0] }
        } else {
            Action::AttemptAdvance
        },
        EpochState::InProgress => Action::Idle,
    }
}

/// Whether work begun in epoch `epoch_id` during phase `state` is still current: work of
/// an earlier epoch, or of a phase that has closed, is dropped.
pub fn still_current(epoch_id: u64, state: EpochState, current_id: u64, current_state: EpochState) -> (r: bool)
    ensures
        r == (epoch_id == current_id && state == current_state),
{
    epoch_id == current_id && state == current_state
}

/// How a participant handles a rejection from the chain.
#[derive(Clone, Copy, Debug, PartialEq, Eq, Structural)]
pub enum Reaction {
    /// The action had already taken effect: carry on.
    Ignore,
    /// Read the epoch again and decide afresh.
    Resync,
    /// Drop this action.
    Abandon,
    /// A protocol invariant is broken: stop and report.
    Halt,
}

/// The reaction to each rejection; `already_done` says whether the chain already shows
/// the effect the action was meant to have.
pub open spec fn reaction_to(err: DkgError, already_done: bool) -> Reaction {
    match err {
        DkgError::DuplicateRegistration | DkgError::AlreadySubmitted | DkgError::AlreadyVoted
        | DkgError::AlreadyExecuted => if already_done {
            Reaction::Ignore
        } else {
            Reaction::Abandon
        },
        DkgError::InvalidEpochState { .. } | DkgError::PhaseNotReady | DkgError::TerminalState
        | DkgError::InvalidTransition | DkgError::ProposalNotFound | DkgError::ProposalClosed
        | DkgError::Stale => Reaction::Resync,
        DkgError::UnauthorizedDealer | DkgError::NotAMember | DkgError::InvalidProof
        | DkgError::NodeIndexRecoveryError { .. } | DkgError::ProposalNotPassed => Reaction::Abandon,
        DkgError::CapacityExceeded | DkgError::IndexOutOfBounds => Reaction::Halt,
    }
}

/// Classifies a rejection into ignore, resync, abandon or halt.
pub fn classify(err: DkgError, already_done: bool) -> (r: Reaction)
    ensures
        r == reaction_to(err, already_done),
{
    match err {
        DkgError::DuplicateRegistration | DkgError::AlreadySubmitted | DkgError::AlreadyVoted
        | DkgError::AlreadyExecuted => if already_done {
            Reaction::Ignore
        } else {
            Reaction::Abandon
        },
        DkgError::InvalidEpochState { .. } | DkgError::PhaseNotReady | DkgError::TerminalState
        | DkgError::InvalidTransition | DkgError::ProposalNotFound | DkgError::ProposalClosed
        | DkgError::Stale => Reaction::Resync,
        DkgError::UnauthorizedDealer | DkgError::NotAMember | DkgError::InvalidProof
        | DkgError::NodeIndexRecoveryError { .. } | DkgError::ProposalNotPassed => Reaction::Abandon,
        DkgError::CapacityExceeded | DkgError::IndexOutOfBounds => Reaction::Halt,
    }
}

} // verus!
