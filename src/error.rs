use vstd::prelude::*;

use crate::epoch::EpochState;

verus! {

/// Why the coordinator refused an operation.
#[derive(Clone, Copy, Debug, PartialEq, Eq, Structural)]
pub enum DkgError {
    /// The operation is not admitted in the current phase.
    InvalidEpochState { current: EpochState },
    /// The phase's condition to advance does not hold yet.
    PhaseNotReady,
    /// The epoch is in its terminal phase; only a reset leaves it.
    TerminalState,
    /// A reset was asked for before the terminal phase.
    InvalidTransition,
    DuplicateRegistration,
    /// No index is left to hand out.
    CapacityExceeded,
    AlreadySubmitted,
    AlreadyVoted,
    AlreadyExecuted,
    /// Only a proposal that passed can be executed.
    ProposalNotPassed,
    ProposalNotFound,
    /// The proposal's vote is closed.
    ProposalClosed,
    UnauthorizedDealer,
    /// The dealer named is not a registered dealer, or holds no share.
    NotAMember,
    IndexOutOfBounds,
    InvalidProof,
    /// The event attribute that should carry the node index is missing or malformed.
    NodeIndexRecoveryError { reason: RecoveryFailure },
    /// The request was made for a phase or epoch that has since closed.
    Stale,
}

/// Why a node index could not be recovered from a registration's events.
#[derive(Clone, Copy, Debug, PartialEq, Eq, Structural)]
pub enum RecoveryFailure {
    /// No contract event carries the attribute.
    NotFound,
    /// The attribute's value is not an unsigned 64-bit decimal number.
    Malformed,
}

} // verus!
