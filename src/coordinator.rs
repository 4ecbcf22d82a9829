use vstd::prelude::*;

use crate::dealing::{Dealing, DealingLedger};
use crate::dispute::{Proposal, ProposalKind, ProposalStatus};
use crate::epoch::{state_rank, threshold_for, threshold_of, EpochState};
use crate::error::DkgError;
use crate::registry::{DealerRecord, DealerRegistry};

verus! {

/// Deployment parameters: how many dealings each dealer makes, and how long each phase
/// lasts, in seconds.
#[derive(Clone, Copy, Debug, PartialEq, Eq, Structural)]
pub struct DkgConfig {
    pub dealings_per_dealer: u64,
    pub public_key_submission_secs: u64,
    pub dealing_exchange_secs: u64,
    pub complaint_submission_secs: u64,
    pub complaint_voting_secs: u64,
    pub verification_key_submission_secs: u64,
    pub verification_key_mismatch_submission_secs: u64,
    pub verification_key_mismatch_voting_secs: u64,
}

impl DkgConfig {
    pub open spec fn duration_spec(&self, s: EpochState) -> u64 {
        match s {
            EpochState::PublicKeySubmission => self.public_key_submission_secs,
            EpochState::DealingExchange => self.dealing_exchange_secs,
            EpochState::ComplaintSubmission => self.complaint_submission_secs,
            EpochState::ComplaintVoting => self.complaint_voting_secs,
            EpochState::VerificationKeySubmission => self.verification_key_submission_secs,
            EpochState::VerificationKeyMismatchSubmission => self.verification_key_mismatch_submission_secs,
            EpochState::VerificationKeyMismatchVoting => self.verification_key_mismatch_voting_secs,
            EpochState::InProgress => 0,
        }
    }

    /// How long phase `s` lasts; the terminal phase has no deadline of its own.
    pub fn duration(&self, s: EpochState) -> (r: u64)
        ensures
            r == self.duration_spec(s),
    {
        match s {
            EpochState::PublicKeySubmission => self.public_key_submission_secs,
            EpochState::DealingExchange => self.dealing_exchange_secs,
            EpochState::ComplaintSubmission => self.complaint_submission_secs,
            EpochState::ComplaintVoting => self.complaint_voting_secs,
            EpochState::VerificationKeySubmission => self.verification_key_submission_secs,
            EpochState::VerificationKeyMismatchSubmission => self.verification_key_mismatch_submission_secs,
            EpochState::VerificationKeyMismatchVoting => self.verification_key_mismatch_voting_secs,
            EpochState::InProgress => 0,
        }
    }
}

/// The epoch as the clock holds it.
#[derive(Clone, Copy, Debug, PartialEq, Eq, Structural)]
pub struct Epoch {
    pub epoch_id: u64,
    pub state: EpochState,
    /// When the current phase's deadline passes, in seconds.
    pub deadline: u64,
    /// Set once, when public-key submission ends.
    pub threshold: Option<u64>,
}

/// The deadline of a phase entered at `now`.
pub open spec fn deadline_from(now: u64, duration: u64) -> u64 {
    if now + duration > u64::MAX {
        u64::MAX
    } else {
        (now + duration) as u64
    }
}

/// The epoch after advancing from `e` at `now`, with `n` registered dealers.
pub open spec fn advanced_epoch(e: Epoch, n: nat, now: u64, config: DkgConfig) -> Epoch {
    let s = e.state.next_spec();
    Epoch {
        epoch_id: e.epoch_id,
        state: s,
        deadline: deadline_from(now, config.duration_spec(s)),
        threshold: if e.state == EpochState::PublicKeySubmission {
            Some(threshold_of(n) as u64)
        } else {
            e.threshold
        },
    }
}

/// A verification-key share submitted by a dealer in the current epoch.
#[derive(Clone, Copy, Debug, PartialEq, Eq, Structural)]
pub struct VkShare {
    pub owner: u64,
    /// The proposal that validates it.
    pub proposal_id: u64,
    pub verified: bool,
    /// Set when a mismatch report against its owner passed.
    pub invalidated: bool,
}

/// A vote cast: proposal id and the voter's node index.
#[derive(Clone, Copy, Debug, PartialEq, Eq, Structural)]
pub struct VoteRecord {
    pub proposal_id: u64,
    pub voter: u64,
}

/// The status a proposal of the round ends with when the round is settled: an open vote
/// is closed by its tally, and a passed one is executed.
pub open spec fn settled_status(p: Proposal) -> ProposalStatus {
    let c = crate::dispute::ballot_closed(p.ballot()).status;
    if c == ProposalStatus::Passed {
        ProposalStatus::Executed
    } else {
        c
    }
}

/// A proposal as settling the round leaves it.
pub open spec fn settled_proposal(p: Proposal, all: bool) -> Proposal {
    if DkgCoordinator::in_round(p, all) {
        Proposal { status: settled_status(p), ..p }
    } else {
        p
    }
}

/// Settling puts the proposal into effect now: it passed, or passes at its close.
pub open spec fn takes_effect(p: Proposal, all: bool) -> bool {
    DkgCoordinator::in_round(p, all) && crate::dispute::ballot_closed(p.ballot()).status
        == ProposalStatus::Passed
}

/// Among the first `n` proposals, one of the round ends executed and deactivates dealer `k`.
pub open spec fn knocked_out(props: Seq<Proposal>, n: int, all: bool, k: u64) -> bool {
    exists|j: int|
        0 <= j < n && DkgCoordinator::in_round(#[trigger] props[j], all) && props[j].kind
            != ProposalKind::ShareValidation && settled_status(props[j]) == ProposalStatus::Executed
            && props[j].accused == k
}

/// Among the first `n` proposals, a mismatch against `owner` takes effect.
pub open spec fn invalidated_by(props: Seq<Proposal>, n: int, all: bool, owner: u64) -> bool {
    exists|j: int|
        0 <= j < n && takes_effect(#[trigger] props[j], all) && props[j].kind == ProposalKind::Mismatch
            && props[j].accused == owner
}

/// Among the first `n` proposals, the validation with id `pid` takes effect.
pub open spec fn validated_by(props: Seq<Proposal>, n: int, all: bool, pid: u64) -> bool {
    exists|j: int|
        0 <= j < n && takes_effect(#[trigger] props[j], all) && props[j].kind
            == ProposalKind::ShareValidation && props[j].id == pid
}

/// A share after the first `n` proposals of the round took effect: invalidated by a
/// mismatch against its owner, verified by its validation unless invalidated.
pub open spec fn settled_share(sh: VkShare, props: Seq<Proposal>, n: int, all: bool) -> VkShare {
    let inv = sh.invalidated || invalidated_by(props, n, all, sh.owner);
    VkShare {
        invalidated: inv,
        verified: (sh.verified || validated_by(props, n, all, sh.proposal_id)) && !inv,
        ..sh
    }
}

proof fn lemma_prefix_step(props: Seq<Proposal>, i: int, all: bool)
    requires
        0 <= i < props.len(),
    ensures
        forall|k: u64| #[trigger] knocked_out(props, i + 1, all, k) == (knocked_out(props, i, all, k) || (
            DkgCoordinator::in_round(props[i], all) && props[i].kind != ProposalKind::ShareValidation
                && settled_status(props[i]) == ProposalStatus::Executed && props[i].accused == k)),
        forall|o: u64| #[trigger] invalidated_by(props, i + 1, all, o) == (invalidated_by(props, i, all, o) || (
            takes_effect(props[i], all) && props[i].kind == ProposalKind::Mismatch && props[i].accused == o)),
        forall|d: u64| #[trigger] validated_by(props, i + 1, all, d) == (validated_by(props, i, all, d) || (
            takes_effect(props[i], all) && props[i].kind == ProposalKind::ShareValidation && props[i].id == d)),
{
    assert forall|k: u64| #[trigger] knocked_out(props, i + 1, all, k) == (knocked_out(props, i, all, k) || (
        DkgCoordinator::in_round(props[i], all) && props[i].kind != ProposalKind::ShareValidation
            && settled_status(props[i]) == ProposalStatus::Executed && props[i].accused == k)) by {
        if knocked_out(props, i + 1, all, k) {
            let j = choose|j: int| 0 <= j < i + 1 && DkgCoordinator::in_round(#[trigger] props[j], all) && props[j].kind
                != ProposalKind::ShareValidation && settled_status(props[j]) == ProposalStatus::Executed
                && props[j].accused == k;
            if j < i {
                assert(knocked_out(props, i, all, k));
            }
        }
        if knocked_out(props, i, all, k) {
            let j = choose|j: int| 0 <= j < i && DkgCoordinator::in_round(#[trigger] props[j], all) && props[j].kind
                != ProposalKind::ShareValidation && settled_status(props[j]) == ProposalStatus::Executed
                && props[j].accused == k;
            assert(0 <= j < i + 1);
        }
    }
    assert forall|o: u64| #[trigger] invalidated_by(props, i + 1, all, o) == (invalidated_by(props, i, all, o) || (
        takes_effect(props[i], all) && props[i].kind == ProposalKind::Mismatch && props[i].accused == o)) by {
        if invalidated_by(props, i + 1, all, o) {
            let j = choose|j: int| 0 <= j < i + 1 && takes_effect(#[trigger] props[j], all) && props[j].kind == ProposalKind::Mismatch
                && props[j].accused == o;
            if j < i {
                assert(invalidated_by(props, i, all, o));
            }
        }
        if invalidated_by(props, i, all, o) {
            let j = choose|j: int| 0 <= j < i && takes_effect(#[trigger] props[j], all) && props[j].kind == ProposalKind::Mismatch
                && props[j].accused == o;
            assert(0 <= j < i + 1);
        }
    }
    assert forall|d: u64| #[trigger] validated_by(props, i + 1, all, d) == (validated_by(props, i, all, d) || (
        takes_effect(props[i], all) && props[i].kind == ProposalKind::ShareValidation && props[i].id == d)) by {
        if validated_by(props, i + 1, all, d) {
            let j = choose|j: int| 0 <= j < i + 1 && takes_effect(#[trigger] props[j], all) && props[j].kind
                == ProposalKind::ShareValidation && props[j].id == d;
            if j < i {
                assert(validated_by(props, i, all, d));
            }
        }
        if validated_by(props, i, all, d) {
            let j = choose|j: int| 0 <= j < i && takes_effect(#[trigger] props[j], all) && props[j].kind
                == ProposalKind::ShareValidation && props[j].id == d;
            assert(0 <= j < i + 1);
        }
    }
}

/// The on-chain coordinator of key generation: the epoch clock, the dealers, their
/// dealings, the proposals with their votes, and the verification-key shares.
pub struct DkgCoordinator {
    pub config: DkgConfig,
    pub epoch: Epoch,
    pub registry: DealerRegistry,
    pub ledger: DealingLedger,
    /// Proposal `i` has id `i`.
    pub proposals: Vec<Proposal>,
    /// The evidence or local digest of each proposal, by id.
    pub evidence: Vec<Vec<u8>>,
    pub votes: Vec<VoteRecord>,
    pub shares: Vec<VkShare>,
    /// The share bytes, by the position of the share.
    pub share_data: Vec<Vec<u8>>,
    /// Addresses of the dealers of the epoch before a reset.
    pub initial_dealers: Option<Vec<String>>,
}

impl DkgCoordinator {
    pub open spec fn wf(&self) -> bool {
        &&& self.registry.wf()
        &&& self.ledger.wf()
        &&& self.proposals@.len() < u64::MAX
        &&& forall|i: int|
            0 <= i < self.proposals@.len() ==> (#[trigger] self.proposals@[i]).id == i
                && self.proposals@[i].wf()
        &&& self.share_data@.len() == self.shares@.len()
        &&& self.evidence@.len() == self.proposals@.len()
        &&& forall|k: int| 0 <= k < self.shares@.len() && (#[trigger] self.shares@[k]).verified ==> !self.shares@[k].invalidated
        &&& self.epoch.state == EpochState::InProgress ==> self.settled(true)
        &&& self.epoch.state == EpochState::PublicKeySubmission ==> self.epoch.threshold is None
        &&& self.epoch.state != EpochState::PublicKeySubmission ==> self.epoch.threshold == Some(
            threshold_of(self.registry.len()) as u64,
        )
    }

    /// Whether a proposal falls in the round being settled: complaints only, or all.
    pub open spec fn in_round(p: Proposal, all: bool) -> bool {
        all || p.kind == ProposalKind::Complaint
    }

    /// Every proposal of the round is decided and put into effect: none is open or passed
    /// and waiting, and the dealer that an executed complaint or mismatch names is
    /// inactive.
    pub open spec fn settled(&self, all: bool) -> bool {
        forall|i: int|
            0 <= i < self.proposals@.len() && Self::in_round(#[trigger] self.proposals@[i], all) ==> {
                let p = self.proposals@[i];
                &&& (p.status == ProposalStatus::Rejected || p.status == ProposalStatus::Executed)
                &&& p.status == ProposalStatus::Executed && p.kind != ProposalKind::ShareValidation
                    ==> !self.registry.is_active_spec(p.accused)
            }
    }

    /// Dealer `d` owns a share that counts toward the master key.
    pub open spec fn admitted_owner(&self, d: u64) -> bool {
        exists|k: int| 0 <= k < self.shares@.len() && #[trigger] self.admitted(k) && self.shares@[k].owner == d
    }

    /// `self` is `before` with the round settled: each proposal of the round closed by its
    /// tally and, if it passed, executed; the dealers named by executed complaints and
    /// mismatches deactivated and no other; shares invalidated and verified accordingly.
    pub open spec fn settles(&self, before: &Self, all: bool) -> bool {
        let props = before.proposals@;
        &&& self.proposals@.len() == props.len()
        &&& forall|j: int| 0 <= j < props.len() ==> #[trigger] self.proposals@[j] == settled_proposal(props[j], all)
        &&& forall|k: u64| #[trigger] self.registry.is_active_spec(k) == (before.registry.is_active_spec(k)
            && !knocked_out(props, props.len() as int, all, k))
        &&& self.shares@.len() == before.shares@.len()
        &&& forall|k: int| 0 <= k < self.shares@.len() ==> #[trigger] self.shares@[k] == settled_share(
            before.shares@[k], props, props.len() as int, all)
    }

    /// The share at position `k` counts toward the master key: validated, not invalidated,
    /// and its owner still active.
    pub open spec fn admitted(&self, k: int) -> bool {
        let sh = self.shares@[k];
        sh.verified && !sh.invalidated && self.registry.is_active_spec(sh.owner)
    }

    /// Whether the dealer with node index `voter` has voted on proposal `id`.
    pub open spec fn voted(&self, id: u64, voter: u64) -> bool {
        exists|k: int| 0 <= k < self.votes@.len() && #[trigger] self.votes@[k] == (VoteRecord { proposal_id: id, voter })
    }

    /// Whether a proposal of this kind, reporter, accused and dealing index exists.
    pub open spec fn raised(&self, kind: ProposalKind, reporter: u64, accused: u64, dealing_index: u64) -> bool {
        exists|k: int| 0 <= k < self.proposals@.len() && {
            let p = #[trigger] self.proposals@[k];
            p.kind == kind && p.reporter == reporter && p.accused == accused && p.dealing_index == dealing_index
        }
    }

    /// The node index of the active dealer registered under `address`, if there is one.
    pub open spec fn active_node(&self, address: Seq<char>, n: u64) -> bool {
        self.registry.is_active_spec(n) && self.registry.dealers@[n - 1].address@ == address
    }

    /// The phase in which proposals of this kind are voted on.
    pub open spec fn voting_phase(kind: ProposalKind) -> EpochState {
        if kind == ProposalKind::Complaint {
            EpochState::ComplaintVoting
        } else {
            EpochState::VerificationKeyMismatchVoting
        }
    }

    /// Whether the epoch is in phase `s`.
    pub open spec fn in_state(&self, s: EpochState) -> bool {
        self.epoch.state == s
    }

    /// Every active dealer has committed all its dealings in the current epoch.
    pub open spec fn all_dealt(&self) -> bool {
        forall|i: int|
            0 <= i < self.registry.len() && #[trigger] self.registry.active@[i]
                ==> self.ledger.complete(self.epoch.epoch_id, (i + 1) as u64, self.config.dealings_per_dealer)
    }

    /// Whether the dealer with node index `node` submitted a verification-key share.
    pub open spec fn has_share(&self, node: u64) -> bool {
        exists|k: int| 0 <= k < self.shares@.len() && #[trigger] self.shares@[k].owner == node
    }

    /// Every active dealer has submitted its verification-key share.
    pub open spec fn all_shared(&self) -> bool {
        forall|i: int|
            0 <= i < self.registry.len() && #[trigger] self.registry.active@[i] ==> self.has_share((i + 1) as u64)
    }

    /// Whether a proposal is voted on in the complaint phase (else in the mismatch phase).
    pub open spec fn in_complaint_round(p: Proposal) -> bool {
        p.kind == ProposalKind::Complaint
    }

    /// No proposal of the round is still open.
    pub open spec fn round_resolved(&self, complaints: bool) -> bool {
        forall|i: int|
            0 <= i < self.proposals@.len() && Self::in_complaint_round(#[trigger] self.proposals@[i]) == complaints
                ==> self.proposals@[i].status != ProposalStatus::Open
    }

    /// Whether the current phase may be left at `now`.
    pub open spec fn ready(&self, now: u64) -> bool {
        let elapsed = now >= self.epoch.deadline;
        match self.epoch.state {
            EpochState::PublicKeySubmission => elapsed && self.registry.len() >= 1,
            EpochState::DealingExchange => elapsed || self.all_dealt(),
            EpochState::ComplaintSubmission => elapsed,
            EpochState::ComplaintVoting => elapsed || self.round_resolved(true),
            EpochState::VerificationKeySubmission => elapsed || self.all_shared(),
            EpochState::VerificationKeyMismatchSubmission => elapsed,
            EpochState::VerificationKeyMismatchVoting => elapsed || self.round_resolved(false),
            EpochState::InProgress => false,
        }
    }

    /// The clock's threshold, once frozen, stays, and so does the epoch id.
    pub open spec fn keeps_epoch(&self, before: &Self) -> bool {
        &&& self.epoch.epoch_id == before.epoch.epoch_id
        &&& before.epoch.threshold is Some ==> self.epoch.threshold == before.epoch.threshold
        &&& self.config == before.config
    }

    /// A coordinator at epoch 0, in public-key submission from `now`.
    pub fn new(config: DkgConfig, now: u64) -> (r: DkgCoordinator)
        ensures
            r.wf(),
            r.epoch == (Epoch {
                epoch_id: 0,
                state: EpochState::PublicKeySubmission,
                deadline: deadline_from(now, config.public_key_submission_secs),
                threshold: None,
            }),
            r.registry.len() == 0,
            r.config == config,
    {
        DkgCoordinator {
            config,
            epoch: Epoch {
                epoch_id: 0,
                state: EpochState::PublicKeySubmission,
                deadline: now.saturating_add(config.public_key_submission_secs),
                threshold: None,
            },
            registry: DealerRegistry::new(),
            ledger: DealingLedger::new(),
            proposals: Vec::new(),
            evidence: Vec::new(),
            votes: Vec::new(),
            shares: Vec::new(),
            share_data: Vec::new(),
            initial_dealers: None,
        }
    }

    /// The current epoch.
    pub fn current(&self) -> (r: Epoch)
        ensures
            r == self.epoch,
    {
        self.epoch
    }

    /// The threshold of the current epoch, once frozen.
    pub fn current_threshold(&self) -> (r: Option<u64>)
        ensures
            r == self.epoch.threshold,
    {
        self.epoch.threshold
    }

    /// Registers a dealer; admitted only during public-key submission.
    pub fn register_dealer(
        &mut self,
        address: String,
        bte_key_with_proof: String,
        identity_key: String,
        announce_address: String,
        proof_valid: bool,
    ) -> (r: Result<u64, DkgError>)
        requires
            old(self).wf(),
        ensures
            final(self).wf(),
            final(self).keeps_epoch(old(self)),
            final(self).epoch == old(self).epoch,
            final(self).ledger == old(self).ledger,
            !old(self).in_state(EpochState::PublicKeySubmission) ==> r == Err::<u64, DkgError>(
                DkgError::InvalidEpochState { current: old(self).epoch.state },
            ),
            old(self).in_state(EpochState::PublicKeySubmission) && old(self).registry.holds(address@) ==> r == Err::<u64, DkgError>(DkgError::DuplicateRegistration),
            old(self).in_state(EpochState::PublicKeySubmission) && !old(self).registry.holds(address@) && !proof_valid ==> r == Err::<u64, DkgError>(DkgError::InvalidProof),
            r is Ok <==> old(self).in_state(EpochState::PublicKeySubmission) && !old(self).registry.holds(address@) && proof_valid && old(self).registry.len() + 1 < u64::MAX,
            r is Err ==> final(self).registry == old(self).registry,
            r matches Ok(n) ==> {
                &&& n == old(self).registry.len() + 1
                &&& final(self).registry.dealers@ == old(self).registry.dealers@.push(final(self).registry.dealers@.last())
                &&& final(self).registry.active@ == old(self).registry.active@.push(true)
                &&& final(self).registry.dealers@.last().address@ == address@
                &&& final(self).registry.dealers@.last().node_index == n
                &&& final(self).registry.dealers@.last().bte_key_with_proof@ == bte_key_with_proof@
                &&& final(self).registry.dealers@.last().identity_key@ == identity_key@
                &&& final(self).registry.dealers@.last().announce_address@ == announce_address@
                &&& final(self).registry.dealers@.last().registered_at_epoch == old(self).epoch.epoch_id
            },
    {
        if self.epoch.state != EpochState::PublicKeySubmission {
            return Err(DkgError::InvalidEpochState { current: self.epoch.state });
        }
        self.registry.register(
            address,
            bte_key_with_proof,
            identity_key,
            announce_address,
            proof_valid,
            self.epoch.epoch_id,
        )
    }

    /// The record of the dealer registered under `address` in the current epoch.
    pub fn dealer_details(&self, address: &String) -> (r: Option<&DealerRecord>)
        requires
            self.wf(),
        ensures
            match r {
                Some(d) => d.address@ == address@ && self.registry.dealers@[d.node_index - 1] == *d
                    && 1 <= d.node_index <= self.registry.len(),
                None => !self.registry.holds(address@),
            },
    {
        self.registry.get(address)
    }

    /// The dealers of the current epoch, by node index.
    pub fn current_dealers(&self) -> (r: &Vec<DealerRecord>)
        ensures
            r@ == self.registry.dealers@,
    {
        self.registry.list()
    }

    /// Commits a dealing of the dealer registered under `address`; admitted only during
    /// dealing exchange, and only from an active dealer.
    pub fn submit_dealing(&mut self, address: &String, index: u64, commitment: Vec<u8>) -> (r: Result<(), DkgError>)
        requires
            old(self).wf(),
        ensures
            final(self).wf(),
            final(self).keeps_epoch(old(self)),
            final(self).epoch == old(self).epoch,
            final(self).registry == old(self).registry,
            !old(self).in_state(EpochState::DealingExchange) ==> r == Err::<(), DkgError>(
                DkgError::InvalidEpochState { current: old(self).epoch.state },
            ),
            r is Ok <==> old(self).in_state(EpochState::DealingExchange) && exists|n: u64| {
                &&& #[trigger] old(self).active_node(address@, n)
                &&& index < old(self).config.dealings_per_dealer
                &&& !old(self).ledger.has(old(self).epoch.epoch_id, n, index)
            },
            old(self).in_state(EpochState::DealingExchange) && (forall|n: u64| !#[trigger] old(self).active_node(address@, n))
                ==> r == Err::<(), DkgError>(DkgError::UnauthorizedDealer),
            forall|n: u64| old(self).in_state(EpochState::DealingExchange) && #[trigger] old(self).active_node(address@, n) && index >= old(self).config.dealings_per_dealer
                ==> r == Err::<(), DkgError>(DkgError::IndexOutOfBounds),
            forall|n: u64| old(self).in_state(EpochState::DealingExchange) && #[trigger] old(self).active_node(address@, n) && index < old(self).config.dealings_per_dealer && old(self).ledger.has(old(self).epoch.epoch_id, n, index)
                ==> r == Err::<(), DkgError>(DkgError::AlreadySubmitted),
            r is Err ==> final(self).ledger.dealings@ == old(self).ledger.dealings@,
            forall|n: u64| #[trigger] old(self).active_node(address@, n) && r is Ok ==> final(self).ledger.dealings@ == old(self).ledger.dealings@.push(
                Dealing { epoch_id: old(self).epoch.epoch_id, dealer: n, dealer_address: *address, index, commitment },
            ),
    {
        if self.epoch.state != EpochState::DealingExchange {
            return Err(DkgError::InvalidEpochState { current: self.epoch.state });
        }
        let node = match self.active_node_of(address) {
            Some(n) => n,
            None => return Err(DkgError::UnauthorizedDealer),
        };
        proof {
            self.lemma_active_node_unique(address@, node);
        }
        self.ledger.submit(self.epoch.epoch_id, node, address.clone(), index, commitment, self.config.dealings_per_dealer)
    }

    /// The node index of the active dealer registered under `address`.
    fn active_node_of(&self, address: &String) -> (r: Option<u64>)
        requires
            self.wf(),
        ensures
            match r {
                Some(n) => self.active_node(address@, n),
                None => forall|n: u64| !#[trigger] self.active_node(address@, n),
            },
    {
        match self.registry.node_index_of(address) {
            Some(n) => {
                if self.registry.is_active(n) {
                    Some(n)
                } else {
                    proof {
                        assert forall|m: u64| !#[trigger] self.active_node(address@, m) by {
                            if self.active_node(address@, m) && m != n {
                                assert(self.registry.dealers@[m - 1].address@ != self.registry.dealers@[n - 1].address@);
                            }
                        }
                    }
                    None
                }
            },
            None => {
                proof {
                    assert forall|m: u64| !#[trigger] self.active_node(address@, m) by {
                        if self.active_node(address@, m) {
                            assert(self.registry.holds(address@));
                        }
                    }
                }
                None
            },
        }
    }

    /// Whether a proposal with these fields was raised already.
    fn find_raised(&self, kind: ProposalKind, reporter: u64, accused: u64, dealing_index: u64) -> (r: bool)
        ensures
            r == self.raised(kind, reporter, accused, dealing_index),
    {
        let mut i: usize = 0;
        while i < self.proposals.len()
            invariant
                i <= self.proposals@.len(),
                forall|k: int| 0 <= k < i ==> {
                    let p = #[trigger] self.proposals@[k];
                    !(p.kind == kind && p.reporter == reporter && p.accused == accused && p.dealing_index == dealing_index)
                },
            decreases self.proposals@.len() - i,
        {
            let p = self.proposals[i];
            if p.kind == kind && p.reporter == reporter && p.accused == accused && p.dealing_index == dealing_index {
                return true;
            }
            i = i + 1;
        }
        false
    }

    /// Whether the voter has voted on the proposal.
    fn find_vote(&self, id: u64, voter: u64) -> (r: bool)
        ensures
            r == self.voted(id, voter),
    {
        let mut i: usize = 0;
        while i < self.votes.len()
            invariant
                i <= self.votes@.len(),
                forall|k: int| 0 <= k < i ==> #[trigger] self.votes@[k] != (VoteRecord { proposal_id: id, voter }),
            decreases self.votes@.len() - i,
        {
            let v = self.votes[i];
            if v.proposal_id == id && v.voter == voter {
                return true;
            }
            i = i + 1;
        }
        false
    }

    /// The position of the share of the dealer with node index `node`.
    fn share_position(&self, node: u64) -> (r: Option<usize>)
        ensures
            match r {
                Some(k) => k < self.shares@.len() && self.shares@[k as int].owner == node,
                None => !self.has_share(node),
            },
    {
        let mut i: usize = 0;
        while i < self.shares.len()
            invariant
                i <= self.shares@.len(),
                forall|k: int| 0 <= k < i ==> #[trigger] self.shares@[k].owner != node,
            decreases self.shares@.len() - i,
        {
            if self.shares[i].owner == node {
                return Some(i);
            }
            i = i + 1;
        }
        None
    }

    /// Opens a proposal among the active dealers, under the next id.
    fn open_proposal(&mut self, kind: ProposalKind, reporter: u64, accused: u64, dealing_index: u64, evidence: Vec<u8>) -> (id: u64)
        requires
            old(self).wf(),
            old(self).proposals@.len() + 1 < u64::MAX,
            old(self).epoch.state != EpochState::InProgress,
        ensures
            final(self).wf(),
            id == old(self).proposals@.len(),
            final(self).proposals@.len() == old(self).proposals@.len() + 1,
            final(self).proposals@.drop_last() == old(self).proposals@,
            final(self).proposals@.last().ballot() == crate::dispute::ballot_opened(old(self).registry.active_count()),
            final(self).proposals@.last().kind == kind,
            final(self).proposals@.last().reporter == reporter,
            final(self).proposals@.last().accused == accused,
            final(self).proposals@.last().dealing_index == dealing_index,
            final(self).epoch == old(self).epoch,
            final(self).config == old(self).config,
            final(self).registry == old(self).registry,
            final(self).ledger == old(self).ledger,
            final(self).votes == old(self).votes,
            final(self).shares == old(self).shares,
            final(self).share_data == old(self).share_data,
    {
        let eligible = self.registry.count_active();
        let id = self.proposals.len() as u64;
        let p = Proposal::open(id, kind, reporter, accused, dealing_index, eligible);
        self.proposals.push(p);
        self.evidence.push(evidence);
        proof {
            assert(self.proposals@.drop_last() =~= old(self).proposals@);
        }
        id
    }

    /// Raises a complaint against the dealing `dealing_index` of dealer `accused`;
    /// admitted only during complaint submission, from an active dealer, once per
    /// complainant, accused and dealing. Returns the id of the proposal opened for it.
    pub fn submit_complaint(&mut self, address: &String, accused: u64, dealing_index: u64, evidence: Vec<u8>) -> (r: Result<u64, DkgError>)
        requires
            old(self).wf(),
        ensures
            final(self).wf(),
            final(self).keeps_epoch(old(self)),
            final(self).epoch == old(self).epoch,
            final(self).registry == old(self).registry,
            final(self).shares == old(self).shares,
            !old(self).in_state(EpochState::ComplaintSubmission) ==> r == Err::<u64, DkgError>(
                DkgError::InvalidEpochState { current: old(self).epoch.state },
            ),
            old(self).in_state(EpochState::ComplaintSubmission) && (forall|n: u64| !#[trigger] old(self).active_node(address@, n)) ==> r == Err::<u64, DkgError>(DkgError::UnauthorizedDealer),
            old(self).in_state(EpochState::ComplaintSubmission) && (exists|n: u64| #[trigger] old(self).active_node(address@, n)) && !(1 <= accused <= old(self).registry.len())
                ==> r == Err::<u64, DkgError>(DkgError::NotAMember),
            forall|n: u64| old(self).in_state(EpochState::ComplaintSubmission) && #[trigger] old(self).active_node(address@, n) && 1 <= accused <= old(self).registry.len() && old(self).raised(ProposalKind::Complaint, n, accused, dealing_index)
                ==> r == Err::<u64, DkgError>(DkgError::AlreadySubmitted),
            r is Ok <==> old(self).in_state(EpochState::ComplaintSubmission) && 1 <= accused <= old(self).registry.len() && old(self).proposals@.len() + 1 < u64::MAX && exists|n: u64| #[trigger] old(self).active_node(address@, n) && !old(self).raised(ProposalKind::Complaint, n, accused, dealing_index),
            r is Err ==> final(self).proposals@ == old(self).proposals@,
            r matches Ok(id) ==> {
                &&& id == old(self).proposals@.len()
                &&& final(self).proposals@.drop_last() == old(self).proposals@
                &&& final(self).proposals@.last().ballot() == crate::dispute::ballot_opened(old(self).registry.active_count())
                &&& final(self).proposals@.last().kind == ProposalKind::Complaint
                &&& final(self).proposals@.last().accused == accused
                &&& final(self).proposals@.last().dealing_index == dealing_index
                &&& old(self).active_node(address@, final(self).proposals@.last().reporter)
            },
    {
        if self.epoch.state != EpochState::ComplaintSubmission {
            return Err(DkgError::InvalidEpochState { current: self.epoch.state });
        }
        let reporter = match self.active_node_of(address) {
            Some(n) => n,
            None => return Err(DkgError::UnauthorizedDealer),
        };
        proof {
            self.lemma_active_node_unique(address@, reporter);
        }
        if accused < 1 || accused > self.registry.dealers.len() as u64 {
            return Err(DkgError::NotAMember);
        }
        if self.find_raised(ProposalKind::Complaint, reporter, accused, dealing_index) {
            return Err(DkgError::AlreadySubmitted);
        }
        if self.proposals.len() as u64 >= u64::MAX - 1 {
            return Err(DkgError::CapacityExceeded);
        }
        Ok(self.open_proposal(ProposalKind::Complaint, reporter, accused, dealing_index, evidence))
    }

    /// Submits the verification-key share of the dealer registered under `address`;
    /// admitted only during verification-key submission, from an active dealer, once.
    /// Opens the proposal that validates the share and returns its id.
    pub fn submit_verification_key_share(&mut self, address: &String, share: Vec<u8>) -> (r: Result<u64, DkgError>)
        requires
            old(self).wf(),
        ensures
            final(self).wf(),
            final(self).keeps_epoch(old(self)),
            final(self).epoch == old(self).epoch,
            final(self).registry == old(self).registry,
            !old(self).in_state(EpochState::VerificationKeySubmission) ==> r == Err::<u64, DkgError>(
                DkgError::InvalidEpochState { current: old(self).epoch.state },
            ),
            old(self).in_state(EpochState::VerificationKeySubmission) && (forall|n: u64| !#[trigger] old(self).active_node(address@, n)) ==> r == Err::<u64, DkgError>(DkgError::UnauthorizedDealer),
            forall|n: u64| old(self).in_state(EpochState::VerificationKeySubmission) && #[trigger] old(self).active_node(address@, n) && old(self).has_share(n)
                ==> r == Err::<u64, DkgError>(DkgError::AlreadySubmitted),
            r is Ok <==> old(self).in_state(EpochState::VerificationKeySubmission) && old(self).proposals@.len() + 1 < u64::MAX && exists|n: u64| #[trigger] old(self).active_node(address@, n) && !old(self).has_share(n),
            r is Err ==> final(self).proposals@ == old(self).proposals@ && final(self).shares@ == old(self).shares@,
            r matches Ok(id) ==> {
                &&& id == old(self).proposals@.len()
                &&& final(self).proposals@.drop_last() == old(self).proposals@
                &&& final(self).proposals@.last().kind == ProposalKind::ShareValidation
                &&& final(self).proposals@.last().ballot() == crate::dispute::ballot_opened(old(self).registry.active_count())
                &&& old(self).active_node(address@, final(self).proposals@.last().accused)
                &&& final(self).shares@ == old(self).shares@.push(VkShare { owner: final(self).proposals@.last().accused, proposal_id: id, verified: false, invalidated: false })
                &&& final(self).share_data@ == old(self).share_data@.push(share)
            },
    {
        if self.epoch.state != EpochState::VerificationKeySubmission {
            return Err(DkgError::InvalidEpochState { current: self.epoch.state });
        }
        let owner = match self.active_node_of(address) {
            Some(n) => n,
            None => return Err(DkgError::UnauthorizedDealer),
        };
        proof {
            self.lemma_active_node_unique(address@, owner);
        }
        if self.share_position(owner).is_some() {
            return Err(DkgError::AlreadySubmitted);
        }
        if self.proposals.len() as u64 >= u64::MAX - 1 {
            return Err(DkgError::CapacityExceeded);
        }
        let id = self.open_proposal(ProposalKind::ShareValidation, owner, owner, 0, Vec::new());
        self.shares.push(VkShare { owner, proposal_id: id, verified: false, invalidated: false });
        self.share_data.push(share);
        Ok(id)
    }

    /// Reports that the share of dealer `accused` does not match the reporter's own
    /// derivation; admitted only during mismatch submission, from an active dealer, once
    /// per reporter and accused. Returns the id of the proposal opened for it.
    pub fn submit_mismatch(&mut self, address: &String, accused: u64, local_digest: Vec<u8>) -> (r: Result<u64, DkgError>)
        requires
            old(self).wf(),
        ensures
            final(self).wf(),
            final(self).keeps_epoch(old(self)),
            final(self).epoch == old(self).epoch,
            final(self).registry == old(self).registry,
            final(self).shares == old(self).shares,
            !old(self).in_state(EpochState::VerificationKeyMismatchSubmission) ==> r == Err::<u64, DkgError>(
                DkgError::InvalidEpochState { current: old(self).epoch.state },
            ),
            old(self).in_state(EpochState::VerificationKeyMismatchSubmission) && (forall|n: u64| !#[trigger] old(self).active_node(address@, n)) ==> r == Err::<u64, DkgError>(DkgError::UnauthorizedDealer),
            old(self).in_state(EpochState::VerificationKeyMismatchSubmission) && (exists|n: u64| #[trigger] old(self).active_node(address@, n)) && !old(self).has_share(accused)
                ==> r == Err::<u64, DkgError>(DkgError::NotAMember),
            forall|n: u64| old(self).in_state(EpochState::VerificationKeyMismatchSubmission) && #[trigger] old(self).active_node(address@, n) && old(self).has_share(accused) && old(self).raised(ProposalKind::Mismatch, n, accused, 0)
                ==> r == Err::<u64, DkgError>(DkgError::AlreadySubmitted),
            r is Ok <==> old(self).in_state(EpochState::VerificationKeyMismatchSubmission) && old(self).has_share(accused) && old(self).proposals@.len() + 1 < u64::MAX && exists|n: u64| #[trigger] old(self).active_node(address@, n) && !old(self).raised(ProposalKind::Mismatch, n, accused, 0),
            r is Err ==> final(self).proposals@ == old(self).proposals@,
            r matches Ok(id) ==> {
                &&& id == old(self).proposals@.len()
                &&& final(self).proposals@.drop_last() == old(self).proposals@
                &&& final(self).proposals@.last().kind == ProposalKind::Mismatch
                &&& final(self).proposals@.last().accused == accused
                &&& final(self).proposals@.last().ballot() == crate::dispute::ballot_opened(old(self).registry.active_count())
                &&& old(self).active_node(address@, final(self).proposals@.last().reporter)
            },
    {
        if self.epoch.state != EpochState::VerificationKeyMismatchSubmission {
            return Err(DkgError::InvalidEpochState { current: self.epoch.state });
        }
        let reporter = match self.active_node_of(address) {
            Some(n) => n,
            None => return Err(DkgError::UnauthorizedDealer),
        };
        proof {
            self.lemma_active_node_unique(address@, reporter);
        }
        if self.share_position(accused).is_none() {
            return Err(DkgError::NotAMember);
        }
        if self.find_raised(ProposalKind::Mismatch, reporter, accused, 0) {
            return Err(DkgError::AlreadySubmitted);
        }
        if self.proposals.len() as u64 >= u64::MAX - 1 {
            return Err(DkgError::CapacityExceeded);
        }
        Ok(self.open_proposal(ProposalKind::Mismatch, reporter, accused, 0, local_digest))
    }

    /// Casts the vote of the dealer registered under `address` on proposal `id`. A
    /// complaint is voted on during complaint voting, the other kinds during mismatch
    /// voting; each active dealer votes once, while the proposal is open.
    pub fn vote_proposal(&mut self, address: &String, id: u64, yes: bool) -> (r: Result<(), DkgError>)
        requires
            old(self).wf(),
        ensures
            final(self).wf(),
            final(self).keeps_epoch(old(self)),
            final(self).epoch == old(self).epoch,
            final(self).registry == old(self).registry,
            final(self).shares == old(self).shares,
            id >= old(self).proposals@.len() ==> r == Err::<(), DkgError>(DkgError::ProposalNotFound),
            id < old(self).proposals@.len() && !old(self).in_state(Self::voting_phase(old(self).proposals@[id as int].kind)) ==> r == Err::<(), DkgError>(
                DkgError::InvalidEpochState { current: old(self).epoch.state },
            ),
            id < old(self).proposals@.len() && old(self).in_state(Self::voting_phase(old(self).proposals@[id as int].kind)) && (forall|n: u64| !#[trigger] old(self).active_node(address@, n))
                ==> r == Err::<(), DkgError>(DkgError::UnauthorizedDealer),
            id < old(self).proposals@.len() && old(self).in_state(Self::voting_phase(old(self).proposals@[id as int].kind)) && (exists|n: u64| #[trigger] old(self).active_node(address@, n)) && old(self).proposals@[id as int].status != ProposalStatus::Open
                ==> r == Err::<(), DkgError>(DkgError::ProposalClosed),
            forall|n: u64| id < old(self).proposals@.len() && old(self).in_state(Self::voting_phase(old(self).proposals@[id as int].kind)) && #[trigger] old(self).active_node(address@, n) && old(self).proposals@[id as int].status == ProposalStatus::Open && old(self).voted(id, n)
                ==> r == Err::<(), DkgError>(DkgError::AlreadyVoted),
            r is Ok <==> id < old(self).proposals@.len() && old(self).in_state(Self::voting_phase(old(self).proposals@[id as int].kind)) && old(self).proposals@[id as int].status == ProposalStatus::Open && exists|n: u64| #[trigger] old(self).active_node(address@, n) && !old(self).voted(id, n),
            r is Err ==> final(self).proposals@ == old(self).proposals@,
            r is Err ==> final(self).votes@ == old(self).votes@,
            r is Ok ==> exists|n: u64| #[trigger] old(self).active_node(address@, n) && final(self).votes@ == old(self).votes@.push(VoteRecord { proposal_id: id, voter: n }),
            r is Ok ==> {
                &&& final(self).proposals@ == old(self).proposals@.update(id as int, final(self).proposals@[id as int])
                &&& final(self).proposals@[id as int].ballot() == crate::dispute::ballot_cast(old(self).proposals@[id as int].ballot(), yes)
                &&& final(self).proposals@[id as int].same_subject(old(self).proposals@[id as int])
            },
    {
        if id >= self.proposals.len() as u64 {
            return Err(DkgError::ProposalNotFound);
        }
        let mut p = self.proposals[id as usize];
        let phase = if p.kind == ProposalKind::Complaint {
            EpochState::ComplaintVoting
        } else {
            EpochState::VerificationKeyMismatchVoting
        };
        if self.epoch.state != phase {
            return Err(DkgError::InvalidEpochState { current: self.epoch.state });
        }
        let voter = match self.active_node_of(address) {
            Some(n) => n,
            None => return Err(DkgError::UnauthorizedDealer),
        };
        proof {
            self.lemma_active_node_unique(address@, voter);
        }
        if p.status != ProposalStatus::Open {
            return Err(DkgError::ProposalClosed);
        }
        if self.find_vote(id, voter) {
            return Err(DkgError::AlreadyVoted);
        }
        p.cast(yes);
        self.proposals.set(id as usize, p);
        self.votes.push(VoteRecord { proposal_id: id, voter });
        Ok(())
    }

    /// The status of proposal `id`.
    pub fn proposal_status(&self, id: u64) -> (r: Option<ProposalStatus>)
        ensures
            id < self.proposals@.len() ==> r == Some(self.proposals@[id as int].status),
            id >= self.proposals@.len() ==> r is None,
    {
        if id < self.proposals.len() as u64 {
            Some(self.proposals[id as usize].status)
        } else {
            None
        }
    }

    /// Every proposal raised in the current epoch.
    pub fn list_proposals(&self) -> (r: &Vec<Proposal>)
        ensures
            r@ == self.proposals@,
    {
        &self.proposals
    }

    /// Marks every share of dealer `node` invalidated.
    fn invalidate_shares_of(&mut self, node: u64)
        requires
            old(self).wf(),
        ensures
            final(self).wf(),
            final(self).shares@.len() == old(self).shares@.len(),
            forall|k: int| 0 <= k < final(self).shares@.len() ==> #[trigger] final(self).shares@[k] == (VkShare {
                invalidated: old(self).shares@[k].invalidated || old(self).shares@[k].owner == node,
                verified: old(self).shares@[k].verified && old(self).shares@[k].owner != node,
                ..old(self).shares@[k]
            }),
            final(self).epoch == old(self).epoch,
            final(self).config == old(self).config,
            final(self).registry == old(self).registry,
            final(self).proposals == old(self).proposals,
            final(self).ledger == old(self).ledger,
            final(self).votes == old(self).votes,
    {
        let mut i: usize = 0;
        while i < self.shares.len()
            invariant
                self.wf(),
                i <= self.shares@.len(),
                self.shares@.len() == old(self).shares@.len(),
                forall|k: int| 0 <= k < i ==> #[trigger] self.shares@[k] == (VkShare {
                    invalidated: old(self).shares@[k].invalidated || old(self).shares@[k].owner == node,
                    verified: old(self).shares@[k].verified && old(self).shares@[k].owner != node,
                    ..old(self).shares@[k]
                }),
                forall|k: int| i <= k < self.shares@.len() ==> #[trigger] self.shares@[k] == old(self).shares@[k],
                self.epoch == old(self).epoch,
                self.config == old(self).config,
                self.registry == old(self).registry,
                self.proposals == old(self).proposals,
                self.ledger == old(self).ledger,
                self.votes == old(self).votes,
            decreases self.shares@.len() - i,
        {
            let mut sh = self.shares[i];
            if sh.owner == node {
                sh.invalidated = true;
                sh.verified = false;
            }
            self.shares.set(i, sh);
            i = i + 1;
        }
    }

    /// Marks the share validated by proposal `id` verified.
    fn verify_share_of(&mut self, id: u64)
        requires
            old(self).wf(),
        ensures
            final(self).wf(),
            final(self).shares@.len() == old(self).shares@.len(),
            forall|k: int| 0 <= k < final(self).shares@.len() ==> #[trigger] final(self).shares@[k] == (VkShare {
                verified: old(self).shares@[k].verified || (old(self).shares@[k].proposal_id == id && !old(self).shares@[k].invalidated),
                ..old(self).shares@[k]
            }),
            final(self).epoch == old(self).epoch,
            final(self).config == old(self).config,
            final(self).registry == old(self).registry,
            final(self).proposals == old(self).proposals,
            final(self).ledger == old(self).ledger,
            final(self).votes == old(self).votes,
    {
        let mut i: usize = 0;
        while i < self.shares.len()
            invariant
                self.wf(),
                i <= self.shares@.len(),
                self.shares@.len() == old(self).shares@.len(),
                forall|k: int| 0 <= k < i ==> #[trigger] self.shares@[k] == (VkShare {
                    verified: old(self).shares@[k].verified || (old(self).shares@[k].proposal_id == id && !old(self).shares@[k].invalidated),
                    ..old(self).shares@[k]
                }),
                forall|k: int| i <= k < self.shares@.len() ==> #[trigger] self.shares@[k] == old(self).shares@[k],
                self.epoch == old(self).epoch,
                self.config == old(self).config,
                self.registry == old(self).registry,
                self.proposals == old(self).proposals,
                self.ledger == old(self).ledger,
                self.votes == old(self).votes,
            decreases self.shares@.len() - i,
        {
            let mut sh = self.shares[i];
            if sh.proposal_id == id && !sh.invalidated {
                sh.verified = true;
            }
            self.shares.set(i, sh);
            i = i + 1;
        }
    }

    /// Puts a passed proposal into effect: a complaint deactivates the accused, a
    /// mismatch invalidates the accused's share and deactivates the accused, a share
    /// validation marks the share verified.
    fn apply_effect(&mut self, p: Proposal)
        requires
            old(self).wf(),
        ensures
            final(self).wf(),
            final(self).epoch == old(self).epoch,
            final(self).config == old(self).config,
            final(self).proposals == old(self).proposals,
            final(self).ledger == old(self).ledger,
            final(self).votes == old(self).votes,
            final(self).registry.dealers@ == old(self).registry.dealers@,
            forall|k: u64| #[trigger] final(self).registry.is_active_spec(k) == (old(self).registry.is_active_spec(k) && (p.kind == ProposalKind::ShareValidation || k != p.accused)),
            final(self).shares@.len() == old(self).shares@.len(),
            forall|k: int| 0 <= k < final(self).shares@.len() ==> #[trigger] final(self).shares@[k] == (VkShare {
                verified: if p.kind == ProposalKind::Mismatch && old(self).shares@[k].owner == p.accused {
                    false
                } else {
                    old(self).shares@[k].verified || (p.kind == ProposalKind::ShareValidation && old(self).shares@[k].proposal_id == p.id && !old(self).shares@[k].invalidated)
                },
                invalidated: old(self).shares@[k].invalidated || (p.kind == ProposalKind::Mismatch && old(self).shares@[k].owner == p.accused),
                ..old(self).shares@[k]
            }),
    {
        match p.kind {
            ProposalKind::Complaint => {
                self.registry.deactivate(p.accused);
            },
            ProposalKind::Mismatch => {
                self.invalidate_shares_of(p.accused);
                self.registry.deactivate(p.accused);
            },
            ProposalKind::ShareValidation => {
                self.verify_share_of(p.id);
            },
        }
    }

    /// Puts passed proposal `id` into effect, once.
    pub fn execute_proposal(&mut self, id: u64) -> (r: Result<(), DkgError>)
        requires
            old(self).wf(),
        ensures
            final(self).wf(),
            final(self).keeps_epoch(old(self)),
            final(self).epoch == old(self).epoch,
            final(self).registry.dealers@ == old(self).registry.dealers@,
            id >= old(self).proposals@.len() ==> r == Err::<(), DkgError>(DkgError::ProposalNotFound),
            id < old(self).proposals@.len() && old(self).proposals@[id as int].status == ProposalStatus::Executed ==> r == Err::<(), DkgError>(DkgError::AlreadyExecuted),
            id < old(self).proposals@.len() && old(self).proposals@[id as int].status != ProposalStatus::Executed && old(self).proposals@[id as int].status != ProposalStatus::Passed ==> r == Err::<(), DkgError>(DkgError::ProposalNotPassed),
            r is Ok <==> id < old(self).proposals@.len() && old(self).proposals@[id as int].status == ProposalStatus::Passed,
            r is Err ==> final(self).proposals@ == old(self).proposals@ && final(self).registry == old(self).registry && final(self).shares@ == old(self).shares@,
            r is Ok ==> {
                let p = old(self).proposals@[id as int];
                &&& final(self).proposals@ == old(self).proposals@.update(id as int, Proposal { status: ProposalStatus::Executed, ..p })
                &&& forall|k: u64| #[trigger] final(self).registry.is_active_spec(k) == (old(self).registry.is_active_spec(k) && (p.kind == ProposalKind::ShareValidation || k != p.accused))
                &&& forall|k: int| 0 <= k < final(self).shares@.len() ==> #[trigger] final(self).shares@[k] == (VkShare {
                    verified: if p.kind == ProposalKind::Mismatch && old(self).shares@[k].owner == p.accused {
                        false
                    } else {
                        old(self).shares@[k].verified || (p.kind == ProposalKind::ShareValidation && old(self).shares@[k].proposal_id == p.id && !old(self).shares@[k].invalidated)
                    },
                    invalidated: old(self).shares@[k].invalidated || (p.kind == ProposalKind::Mismatch && old(self).shares@[k].owner == p.accused),
                    ..old(self).shares@[k]
                })
            },
    {
        if id >= self.proposals.len() as u64 {
            return Err(DkgError::ProposalNotFound);
        }
        let mut p = self.proposals[id as usize];
        if p.status == ProposalStatus::Executed {
            return Err(DkgError::AlreadyExecuted);
        }
        if p.status != ProposalStatus::Passed {
            return Err(DkgError::ProposalNotPassed);
        }
        self.apply_effect(p);
        p.status = ProposalStatus::Executed;
        self.proposals.set(id as usize, p);
        Ok(())
    }

    /// Closes the open proposals of the round at its deadline, puts every passed one into
    /// effect, and makes sure the dealers named by executed complaints and mismatches are
    /// inactive.
    fn settle(&mut self, all: bool)
        requires
            old(self).wf(),
        ensures
            final(self).wf(),
            final(self).settled(all),
            final(self).settles(old(self), all),
            final(self).epoch == old(self).epoch,
            final(self).config == old(self).config,
            final(self).ledger == old(self).ledger,
            final(self).votes == old(self).votes,
            final(self).registry.dealers@ == old(self).registry.dealers@,
    {
        let ghost props = old(self).proposals@;
        let mut i: usize = 0;
        while i < self.proposals.len()
            invariant
                self.wf(),
                props == old(self).proposals@,
                i <= self.proposals@.len(),
                self.proposals@.len() == props.len(),
                self.shares@.len() == old(self).shares@.len(),
                self.epoch == old(self).epoch,
                self.config == old(self).config,
                self.ledger == old(self).ledger,
                self.votes == old(self).votes,
                self.registry.dealers@ == old(self).registry.dealers@,
                forall|j: int| 0 <= j < i && Self::in_round(#[trigger] self.proposals@[j], all) ==> {
                    let p = self.proposals@[j];
                    &&& (p.status == ProposalStatus::Rejected || p.status == ProposalStatus::Executed)
                    &&& p.status == ProposalStatus::Executed && p.kind != ProposalKind::ShareValidation
                        ==> !self.registry.is_active_spec(p.accused)
                },
                forall|j: int| 0 <= j < props.len() ==> #[trigger] self.proposals@[j] == if j < i {
                    settled_proposal(props[j], all)
                } else {
                    props[j]
                },
                forall|k: u64| #[trigger] self.registry.is_active_spec(k) == (old(self).registry.is_active_spec(k) && !knocked_out(props, i as int, all, k)),
                forall|k: int| 0 <= k < self.shares@.len() ==> #[trigger] self.shares@[k] == settled_share(old(self).shares@[k], props, i as int, all),
            decreases self.proposals@.len() - i,
        {
            let mut p = self.proposals[i];
            let ghost q = props[i as int];
            proof {
                lemma_prefix_step(props, i as int, all);
            }
            if all || p.kind == ProposalKind::Complaint {
                p.close();
                if p.status == ProposalStatus::Passed {
                    self.apply_effect(p);
                    p.status = ProposalStatus::Executed;
                } else if p.status == ProposalStatus::Executed && p.kind != ProposalKind::ShareValidation {
                    self.registry.deactivate(p.accused);
                }
                self.proposals.set(i, p);
            }
            proof {
                assert(self.proposals@[i as int] == settled_proposal(q, all));
            }
            i = i + 1;
        }
    }

    /// Whether every active dealer committed all its dealings in the current epoch.
    fn check_all_dealt(&self) -> (r: bool)
        requires
            self.wf(),
        ensures
            r == self.all_dealt(),
    {
        let mut i: usize = 0;
        while i < self.registry.dealers.len()
            invariant
                self.wf(),
                i <= self.registry.len(),
                forall|j: int| 0 <= j < i && #[trigger] self.registry.active@[j] ==> self.ledger.complete(self.epoch.epoch_id, (j + 1) as u64, self.config.dealings_per_dealer),
            decreases self.registry.len() - i,
        {
            if self.registry.active[i] && !self.ledger.is_complete(self.epoch.epoch_id, i as u64 + 1, self.config.dealings_per_dealer) {
                return false;
            }
            i = i + 1;
        }
        true
    }

    /// Whether every active dealer submitted its verification-key share.
    fn check_all_shared(&self) -> (r: bool)
        requires
            self.wf(),
        ensures
            r == self.all_shared(),
    {
        let mut i: usize = 0;
        while i < self.registry.dealers.len()
            invariant
                self.wf(),
                i <= self.registry.len(),
                forall|j: int| 0 <= j < i && #[trigger] self.registry.active@[j] ==> self.has_share((j + 1) as u64),
            decreases self.registry.len() - i,
        {
            if self.registry.active[i] && self.share_position(i as u64 + 1).is_none() {
                return false;
            }
            i = i + 1;
        }
        true
    }

    /// Whether no proposal of the round (complaints, or the others) is open.
    fn check_round_resolved(&self, complaints: bool) -> (r: bool)
        ensures
            r == self.round_resolved(complaints),
    {
        let mut i: usize = 0;
        while i < self.proposals.len()
            invariant
                i <= self.proposals@.len(),
                forall|j: int| 0 <= j < i && Self::in_complaint_round(#[trigger] self.proposals@[j]) == complaints ==> self.proposals@[j].status != ProposalStatus::Open,
            decreases self.proposals@.len() - i,
        {
            let p = self.proposals[i];
            if (p.kind == ProposalKind::Complaint) == complaints && p.status == ProposalStatus::Open {
                return false;
            }
            i = i + 1;
        }
        true
    }

    /// Whether the current phase may be left at `now`.
    pub fn is_ready(&self, now: u64) -> (r: bool)
        requires
            self.wf(),
        ensures
            r == self.ready(now),
    {
        let elapsed = now >= self.epoch.deadline;
        match self.epoch.state {
            EpochState::PublicKeySubmission => elapsed && self.registry.dealers.len() >= 1,
            EpochState::DealingExchange => elapsed || self.check_all_dealt(),
            EpochState::ComplaintSubmission => elapsed,
            EpochState::ComplaintVoting => elapsed || self.check_round_resolved(true),
            EpochState::VerificationKeySubmission => elapsed || self.check_all_shared(),
            EpochState::VerificationKeyMismatchSubmission => elapsed,
            EpochState::VerificationKeyMismatchVoting => elapsed || self.check_round_resolved(false),
            EpochState::InProgress => false,
        }
    }

    /// Moves the epoch to the next phase when the current one's condition holds at `now`.
    /// The caller names the epoch and phase it saw: a request for an epoch or phase that
    /// has since moved on is refused as stale, so two requests made in the same phase
    /// advance it once. Leaving public-key submission freezes the threshold; leaving
    /// complaint voting settles the complaints; entering the terminal phase settles every
    /// proposal.
    pub fn try_advance(&mut self, seen_epoch: u64, seen_state: EpochState, now: u64) -> (r: Result<EpochState, DkgError>)
        requires
            old(self).wf(),
        ensures
            final(self).wf(),
            final(self).keeps_epoch(old(self)),
            final(self).registry.dealers@ == old(self).registry.dealers@,
            final(self).ledger == old(self).ledger,
            final(self).votes == old(self).votes,
            seen_epoch != old(self).epoch.epoch_id || seen_state != old(self).epoch.state ==> r == Err::<EpochState, DkgError>(DkgError::Stale),
            seen_epoch == old(self).epoch.epoch_id && seen_state == old(self).epoch.state ==> {
                &&& old(self).in_state(EpochState::InProgress) ==> r == Err::<EpochState, DkgError>(DkgError::TerminalState)
                &&& !old(self).in_state(EpochState::InProgress) && !old(self).ready(now) ==> r == Err::<EpochState, DkgError>(DkgError::PhaseNotReady)
            },
            r is Ok <==> seen_epoch == old(self).epoch.epoch_id && seen_state == old(self).epoch.state && !old(self).in_state(EpochState::InProgress) && old(self).ready(now),
            r is Err ==> final(self).epoch == old(self).epoch && final(self).proposals@ == old(self).proposals@
                && final(self).registry == old(self).registry && final(self).shares@ == old(self).shares@,
            r matches Ok(s) ==> {
                &&& s == old(self).epoch.state.next_spec()
                &&& state_rank(s) == state_rank(old(self).epoch.state) + 1
                &&& final(self).epoch == advanced_epoch(old(self).epoch, old(self).registry.len(), now, old(self).config)
            },
            r is Ok && old(self).in_state(EpochState::ComplaintVoting) ==> final(self).settles(old(self), false) && final(self).settled(false),
            r is Ok && old(self).in_state(EpochState::VerificationKeyMismatchVoting) ==> final(self).settles(old(self), true) && final(self).settled(true),
            r is Ok && !old(self).in_state(EpochState::ComplaintVoting) && !old(self).in_state(EpochState::VerificationKeyMismatchVoting)
                ==> final(self).proposals@ == old(self).proposals@ && final(self).registry == old(self).registry && final(self).shares@ == old(self).shares@,
    {
        if seen_epoch != self.epoch.epoch_id || seen_state != self.epoch.state {
            return Err(DkgError::Stale);
        }
        if self.epoch.state == EpochState::InProgress {
            return Err(DkgError::TerminalState);
        }
        if !self.is_ready(now) {
            return Err(DkgError::PhaseNotReady);
        }
        let next = match self.epoch.state.next() {
            Some(n) => n,
            None => return Err(DkgError::TerminalState),
        };
        if self.epoch.state == EpochState::PublicKeySubmission {
            self.epoch.threshold = Some(threshold_for(self.registry.dealers.len() as u64));
        }
        if self.epoch.state == EpochState::ComplaintVoting {
            self.settle(false);
        } else if self.epoch.state == EpochState::VerificationKeyMismatchVoting {
            self.settle(true);
        }
        self.epoch.state = next;
        self.epoch.deadline = now.saturating_add(self.config.duration(next));
        Ok(next)
    }

    /// Opens the next epoch from the terminal phase, remembering the dealers that take part
    /// in resharing. Registrations, proposals and shares start afresh; committed dealings
    /// stay under their epoch.
    pub fn reset(&mut self, initial_dealers: Vec<String>, now: u64) -> (r: Result<Epoch, DkgError>)
        requires
            old(self).wf(),
            old(self).epoch.epoch_id < u64::MAX,
        ensures
            final(self).wf(),
            final(self).config == old(self).config,
            final(self).ledger == old(self).ledger,
            !old(self).in_state(EpochState::InProgress) ==> r == Err::<Epoch, DkgError>(DkgError::InvalidTransition) && final(self).epoch == old(self).epoch,
            r is Ok <==> old(self).in_state(EpochState::InProgress),
            r matches Ok(e) ==> {
                &&& e == final(self).epoch
                &&& e == (Epoch {
                    epoch_id: (old(self).epoch.epoch_id + 1) as u64,
                    state: EpochState::PublicKeySubmission,
                    deadline: deadline_from(now, old(self).config.public_key_submission_secs),
                    threshold: None,
                })
                &&& final(self).registry.len() == 0
                &&& final(self).proposals@.len() == 0
                &&& final(self).shares@.len() == 0
                &&& final(self).initial_dealers matches Some(v) && v@ == initial_dealers@
            },
    {
        if self.epoch.state != EpochState::InProgress {
            return Err(DkgError::InvalidTransition);
        }
        self.epoch = Epoch {
            epoch_id: self.epoch.epoch_id + 1,
            state: EpochState::PublicKeySubmission,
            deadline: now.saturating_add(self.config.public_key_submission_secs),
            threshold: None,
        };
        self.registry = DealerRegistry::new();
        self.proposals = Vec::new();
        self.evidence = Vec::new();
        self.votes = Vec::new();
        self.shares = Vec::new();
        self.share_data = Vec::new();
        self.initial_dealers = Some(initial_dealers);
        Ok(self.epoch)
    }

    /// The owners of the shares that count toward the master key, in submission order.
    pub fn admitted_shares(&self) -> (r: Vec<u64>)
        requires
            self.wf(),
        ensures
            forall|j: int| 0 <= j < r@.len() ==> self.admitted_owner(#[trigger] r@[j]),
            forall|j: int| 0 <= j < r@.len() ==> self.registry.is_active_spec(#[trigger] r@[j]),
            forall|k: int| 0 <= k < self.shares@.len() && #[trigger] self.admitted(k) ==> r@.contains(self.shares@[k].owner),
    {
        let mut out: Vec<u64> = Vec::new();
        let mut i: usize = 0;
        while i < self.shares.len()
            invariant
                self.wf(),
                i <= self.shares@.len(),
                forall|j: int| 0 <= j < out@.len() ==> self.admitted_owner(#[trigger] out@[j]),
                forall|j: int| 0 <= j < out@.len() ==> self.registry.is_active_spec(#[trigger] out@[j]),
                forall|k: int| 0 <= k < i && #[trigger] self.admitted(k) ==> out@.contains(self.shares@[k].owner),
            decreases self.shares@.len() - i,
        {
            let sh = self.shares[i];
            if sh.verified && !sh.invalidated && self.registry.is_active(sh.owner) {
                let ghost prev = out@;
                out.push(sh.owner);
                proof {
                    assert(out@[out@.len() - 1] == sh.owner);
                    assert(self.admitted(i as int));
                    assert(self.admitted_owner(sh.owner));
                    assert forall|j: int| 0 <= j < out@.len() implies self.admitted_owner(#[trigger] out@[j]) by {
                        if j < prev.len() {
                            assert(out@[j] == prev[j]);
                        }
                    }
                    assert forall|k: int| 0 <= k < i + 1 && #[trigger] self.admitted(k) implies out@.contains(self.shares@[k].owner) by {
                        if k < i {
                            assert(prev.contains(self.shares@[k].owner));
                            let j = choose|j: int| 0 <= j < prev.len() && prev[j] == self.shares@[k].owner;
                            assert(out@[j] == prev[j]);
                        } else {
                            assert(out@[out@.len() - 1] == self.shares@[k].owner);
                        }
                    }
                }
            }
            i = i + 1;
        }
        out
    }

    /// The share bytes of the dealer with node index `node`, with whether they are verified.
    pub fn verification_key_share(&self, node: u64) -> (r: Option<(&Vec<u8>, bool)>)
        requires
            self.wf(),
        ensures
            r is None <==> !self.has_share(node),
            r matches Some(v) ==> exists|k: int| 0 <= k < self.shares@.len() && #[trigger] self.shares@[k].owner == node && v.0@ == self.share_data@[k]@ && v.1 == self.shares@[k].verified,
    {
        match self.share_position(node) {
            Some(k) => Some((&self.share_data[k], self.shares[k].verified)),
            None => None,
        }
    }

    proof fn lemma_active_node_unique(&self, address: Seq<char>, n: u64)
        requires
            self.wf(),
            self.active_node(address, n),
        ensures
            forall|m: u64| #[trigger] self.active_node(address, m) ==> m == n,
    {
        assert forall|m: u64| #[trigger] self.active_node(address, m) implies m == n by {
            if m != n {
                assert(self.registry.dealers@[m - 1].address@ != self.registry.dealers@[n - 1].address@);
            }
        }
    }

    /// Whether the dealer with this address committed dealing `index` in the epoch.
    pub fn dealing_status(&self, epoch_id: u64, address: &String, index: u64) -> (r: bool)
        ensures
            r == self.ledger.has_address(epoch_id, address@, index),
    {
        self.ledger.status_of_address(epoch_id, address, index)
    }

    /// The dealing indices the dealer with this address committed in the epoch, with the
    /// position of each dealing in the ledger, in submission order.
    pub fn dealings(&self, epoch_id: u64, address: &String) -> (r: Vec<(u64, usize)>)
        ensures
            forall|j: int| 0 <= j < r@.len() ==> {
                &&& (#[trigger] r@[j]).1 < self.ledger.dealings@.len()
                &&& self.ledger.dealings@[r@[j].1 as int].epoch_id == epoch_id
                &&& self.ledger.dealings@[r@[j].1 as int].dealer_address@ == address@
                &&& self.ledger.dealings@[r@[j].1 as int].index == r@[j].0
            },
            forall|j: int, k: int| 0 <= j < k < r@.len() ==> (#[trigger] r@[j]).1 < (#[trigger] r@[k]).1,
            forall|i: int| 0 <= i < self.ledger.dealings@.len() && #[trigger] self.ledger.dealings@[i].epoch_id == epoch_id && self.ledger.dealings@[i].dealer_address@ == address@ ==> exists|j: int| 0 <= j < r@.len() && #[trigger] r@[j].1 == i,
    {
        self.ledger.list(epoch_id, address)
    }
}

/// Once frozen, the threshold of an epoch stays: every operation but a reset keeps it,
/// and it is two thirds of the registered dealers, rounded down, plus one.
pub proof fn lemma_threshold_stable(before: DkgCoordinator, after: DkgCoordinator)
    requires
        before.wf(),
        after.wf(),
        after.keeps_epoch(&before),
        before.epoch.state != EpochState::PublicKeySubmission,
    ensures
        after.epoch.threshold == before.epoch.threshold,
        before.epoch.threshold == Some(threshold_of(before.registry.len()) as u64),
{
}

/// After an advance out of a phase, a second request made for that phase names a phase
/// that is no longer current, so it is refused as stale and the epoch moves only once.
pub proof fn lemma_repeated_advance_is_stale(before: Epoch, n: nat, now: u64, config: DkgConfig)
    requires
        before.state != EpochState::InProgress,
    ensures
        advanced_epoch(before, n, now, config).epoch_id == before.epoch_id,
        advanced_epoch(before, n, now, config).state != before.state,
        state_rank(advanced_epoch(before, n, now, config).state) == state_rank(before.state) + 1,
{
    crate::epoch::lemma_rank_of_state_at(state_rank(before.state) + 1);
}

/// In the terminal phase of an epoch, a dealer named by a passed complaint or mismatch is
/// inactive and has no share that counts toward the master key.
pub proof fn lemma_passed_dealer_excluded(c: DkgCoordinator, i: int)
    requires
        c.wf(),
        c.epoch.state == EpochState::InProgress,
        0 <= i < c.proposals@.len(),
        c.proposals@[i].status == ProposalStatus::Passed || c.proposals@[i].status == ProposalStatus::Executed,
        c.proposals@[i].kind != ProposalKind::ShareValidation,
    ensures
        !c.registry.is_active_spec(c.proposals@[i].accused),
        !c.admitted_owner(c.proposals@[i].accused),
{
    assert(DkgCoordinator::in_round(c.proposals@[i], true));
}

} // verus!
