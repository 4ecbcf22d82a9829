use vstd::multiset::Multiset;
use vstd::prelude::*;

verus! {

/// Where a proposal stands.
#[derive(Clone, Copy, Debug, PartialEq, Eq, Structural)]
pub enum ProposalStatus {
    Open,
    Passed,
    Rejected,
    Executed,
}

/// The outcome of a vote once it is closed, from the yes and no votes cast and the
/// number of eligible voters: passed when at least half of the voters (rounded up) voted
/// and there are strictly more yes than no votes; a tie is rejected.
pub open spec fn tally_outcome(yes: nat, no: nat, eligible: nat) -> ProposalStatus {
    if 2 * (yes + no) >= eligible && yes > no {
        ProposalStatus::Passed
    } else {
        ProposalStatus::Rejected
    }
}

/// The outcome, where the voters that have not voted yet can no longer change it.
pub open spec fn settled_outcome(yes: nat, no: nat, eligible: nat) -> Option<ProposalStatus> {
    let remaining = eligible - yes - no;
    if yes > no + remaining {
        Some(ProposalStatus::Passed)
    } else if yes + remaining <= no {
        Some(ProposalStatus::Rejected)
    } else {
        None
    }
}

/// The abstract state of a vote: yes votes, no votes, eligible voters, status.
pub struct Ballot {
    pub yes: nat,
    pub no: nat,
    pub eligible: nat,
    pub status: ProposalStatus,
}

/// The state of a vote just opened with `eligible` voters.
pub open spec fn ballot_opened(eligible: nat) -> Ballot {
    match settled_outcome(0, 0, eligible) {
        Some(s) => Ballot { yes: 0, no: 0, eligible, status: s },
        None => Ballot { yes: 0, no: 0, eligible, status: ProposalStatus::Open },
    }
}

/// One vote arriving: counted while the vote is open, ignored after it closed. The vote
/// closes as soon as its outcome is settled.
pub open spec fn ballot_cast(b: Ballot, yes: bool) -> Ballot {
    if b.status != ProposalStatus::Open {
        b
    } else {
        let y = if yes { b.yes + 1 } else { b.yes };
        let n = if yes { b.no } else { b.no + 1 };
        match settled_outcome(y, n, b.eligible) {
            Some(s) => Ballot { yes: y, no: n, eligible: b.eligible, status: s },
            None => Ballot { yes: y, no: n, eligible: b.eligible, status: ProposalStatus::Open },
        }
    }
}

/// Closing a vote at the phase deadline: an open vote gets the outcome of its tally.
pub open spec fn ballot_closed(b: Ballot) -> Ballot {
    if b.status == ProposalStatus::Open {
        Ballot { status: tally_outcome(b.yes, b.no, b.eligible), ..b }
    } else {
        b
    }
}

/// The votes of a sequence of distinct voters, in arrival order, applied to a vote with
/// `eligible` voters.
pub open spec fn ballot_after(votes: Seq<bool>, eligible: nat) -> Ballot
    decreases votes.len(),
{
    if votes.len() == 0 {
        ballot_opened(eligible)
    } else {
        ballot_cast(ballot_after(votes.drop_last(), eligible), votes.last())
    }
}

/// How many votes in the sequence are `v`.
pub open spec fn count_votes(votes: Seq<bool>, v: bool) -> nat
    decreases votes.len(),
{
    if votes.len() == 0 {
        0
    } else {
        count_votes(votes.drop_last(), v) + if votes.last() == v { 1nat } else { 0nat }
    }
}

proof fn lemma_count_is_multiset_count(votes: Seq<bool>, v: bool)
    ensures
        count_votes(votes, v) == votes.to_multiset().count(v),
    decreases votes.len(),
{
    broadcast use vstd::seq_lib::to_multiset_build, vstd::multiset::group_multiset_axioms;

    if votes.len() == 0 {
        assert(votes.to_multiset() =~= Multiset::empty()) by {
            broadcast use vstd::seq_lib::group_to_multiset_ensures;
            assert(votes.to_multiset().len() == 0);
        }
    } else {
        lemma_count_is_multiset_count(votes.drop_last(), v);
        assert(votes.drop_last().push(votes.last()) =~= votes);
    }
}

proof fn lemma_counts_bounded(votes: Seq<bool>)
    ensures
        count_votes(votes, true) + count_votes(votes, false) == votes.len(),
    decreases votes.len(),
{
    if votes.len() > 0 {
        lemma_counts_bounded(votes.drop_last());
    }
}

/// Once the tally is settled, no further votes change the outcome of the closed vote.
proof fn lemma_settled_is_final(y: nat, n: nat, y2: nat, n2: nat, e: nat)
    requires
        y <= y2,
        n <= n2,
        y2 + n2 <= e,
        y + n <= e,
        settled_outcome(y, n, e) is Some,
    ensures
        tally_outcome(y2, n2, e) == settled_outcome(y, n, e)->Some_0,
{
}

proof fn lemma_ballot_tracks_counts(votes: Seq<bool>, eligible: nat)
    requires
        votes.len() <= eligible,
    ensures
        ({
            let b = ballot_after(votes, eligible);
            &&& b.eligible == eligible
            &&& b.yes <= count_votes(votes, true)
            &&& b.no <= count_votes(votes, false)
            &&& b.status == ProposalStatus::Open ==> b.yes == count_votes(votes, true) && b.no
                == count_votes(votes, false) && settled_outcome(b.yes, b.no, eligible) is None
            &&& b.status != ProposalStatus::Open ==> b.yes + b.no <= eligible && settled_outcome(
                b.yes,
                b.no,
                eligible,
            ) == Some(b.status)
        }),
    decreases votes.len(),
{
    if votes.len() > 0 {
        lemma_ballot_tracks_counts(votes.drop_last(), eligible);
        lemma_counts_bounded(votes.drop_last());
    }
}

/// The outcome of a vote, once closed, depends only on the multiset of votes cast by its
/// distinct voters, whatever order they arrived in: it is the tally of all of them.
pub proof fn lemma_outcome_independent_of_order(votes: Seq<bool>, eligible: nat)
    requires
        votes.len() <= eligible,
    ensures
        ballot_closed(ballot_after(votes, eligible)).status == tally_outcome(
            votes.to_multiset().count(true),
            votes.to_multiset().count(false),
            eligible,
        ),
{
    lemma_ballot_tracks_counts(votes, eligible);
    lemma_counts_bounded(votes);
    lemma_count_is_multiset_count(votes, true);
    lemma_count_is_multiset_count(votes, false);
    let b = ballot_after(votes, eligible);
    if b.status != ProposalStatus::Open {
        lemma_settled_is_final(b.yes, b.no, count_votes(votes, true), count_votes(votes, false), eligible);
    }
}

/// Two arrival orders of the same votes close with the same outcome.
pub proof fn lemma_permuted_votes_same_outcome(a: Seq<bool>, b: Seq<bool>, eligible: nat)
    requires
        a.len() <= eligible,
        a.to_multiset() == b.to_multiset(),
    ensures
        ballot_closed(ballot_after(a, eligible)).status == ballot_closed(
            ballot_after(b, eligible),
        ).status,
{
    broadcast use vstd::seq_lib::group_to_multiset_ensures;

    assert(a.len() == b.len()) by {
        assert(a.to_multiset().len() == a.len());
        assert(b.to_multiset().len() == b.len());
    }
    lemma_outcome_independent_of_order(a, eligible);
    lemma_outcome_independent_of_order(b, eligible);
}

/// What a proposal is about, and so what passing it does.
#[derive(Clone, Copy, Debug, PartialEq, Eq, Structural)]
pub enum ProposalKind {
    /// A complaint against a dealing: passing it deactivates the accused dealer.
    Complaint,
    /// A report that a verification-key share does not match the reporter's derivation:
    /// passing it invalidates the accused's share and deactivates the accused.
    Mismatch,
    /// The check of a submitted verification-key share: passing it marks the share verified.
    ShareValidation,
}

/// A vote among the active dealers of an epoch, one vote per dealer.
#[derive(Clone, Copy, Debug, PartialEq, Eq, Structural)]
pub struct Proposal {
    pub id: u64,
    pub kind: ProposalKind,
    /// Node index of the dealer that raised the proposal.
    pub reporter: u64,
    /// Node index of the dealer the proposal is about.
    pub accused: u64,
    /// The dealing complained about; zero for the other kinds.
    pub dealing_index: u64,
    pub yes: u64,
    pub no: u64,
    /// How many dealers were active, and so eligible to vote, when it was opened.
    pub eligible: u64,
    pub status: ProposalStatus,
}

impl Proposal {
    pub open spec fn ballot(&self) -> Ballot {
        Ballot {
            yes: self.yes as nat,
            no: self.no as nat,
            eligible: self.eligible as nat,
            status: self.status,
        }
    }

    /// An open proposal is still undecided; a decided one counts no more votes than voters.
    pub open spec fn wf(&self) -> bool {
        &&& self.yes + self.no <= self.eligible
        &&& self.status == ProposalStatus::Open ==> settled_outcome(
            self.yes as nat,
            self.no as nat,
            self.eligible as nat,
        ) is None
    }

    /// The same proposal apart from its votes and status.
    pub open spec fn same_subject(&self, other: Proposal) -> bool {
        &&& self.id == other.id
        &&& self.kind == other.kind
        &&& self.reporter == other.reporter
        &&& self.accused == other.accused
        &&& self.dealing_index == other.dealing_index
    }

    /// Opens a proposal among `eligible` voters. With no voters it is rejected at once.
    pub fn open(
        id: u64,
        kind: ProposalKind,
        reporter: u64,
        accused: u64,
        dealing_index: u64,
        eligible: u64,
    ) -> (r: Proposal)
        ensures
            r.wf(),
            r.ballot() == ballot_opened(eligible as nat),
            r.id == id && r.kind == kind && r.reporter == reporter && r.accused == accused
                && r.dealing_index == dealing_index,
    {
        let status = if eligible == 0 {
            ProposalStatus::Rejected
        } else {
            ProposalStatus::Open
        };
        Proposal { id, kind, reporter, accused, dealing_index, yes: 0, no: 0, eligible, status }
    }

    /// Counts one vote on an open proposal, and closes it once its outcome is settled.
    pub fn cast(&mut self, yes: bool)
        requires
            old(self).wf(),
            old(self).status == ProposalStatus::Open,
        ensures
            final(self).wf(),
            final(self).ballot() == ballot_cast(old(self).ballot(), yes),
            final(self).same_subject(*old(self)),
    {
        if yes {
            self.yes = self.yes + 1;
        } else {
            self.no = self.no + 1;
        }
        let remaining = self.eligible - self.yes - self.no;
        if self.no < self.yes && remaining < self.yes - self.no {
            self.status = ProposalStatus::Passed;
        } else if self.yes <= self.no && remaining <= self.no - self.yes {
            self.status = ProposalStatus::Rejected;
        }
    }

    /// Closes the proposal at the deadline of its voting phase.
    pub fn close(&mut self)
        requires
            old(self).wf(),
        ensures
            final(self).wf(),
            final(self).ballot() == ballot_closed(old(self).ballot()),
            final(self).same_subject(*old(self)),
    {
        if self.status == ProposalStatus::Open {
            let voted = self.yes + self.no;
            let quorum = voted >= self.eligible - voted;
            if quorum && self.yes > self.no {
                self.status = ProposalStatus::Passed;
            } else {
                self.status = ProposalStatus::Rejected;
            }
        }
    }
}

} // verus!
