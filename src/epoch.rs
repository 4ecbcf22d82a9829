use vstd::prelude::*;

verus! {

/// The phases of one key-generation epoch, in the order in which they are passed through.
#[derive(Clone, Copy, Debug, PartialEq, Eq, Structural, PartialOrd, Ord, Hash)]
pub enum EpochState {
    PublicKeySubmission,
    DealingExchange,
    ComplaintSubmission,
    ComplaintVoting,
    VerificationKeySubmission,
    VerificationKeyMismatchSubmission,
    VerificationKeyMismatchVoting,
    InProgress,
}

/// Position of a phase in the total order of phases.
pub open spec fn state_rank(s: EpochState) -> nat {
    match s {
        EpochState::PublicKeySubmission => 0,
        EpochState::DealingExchange => 1,
        EpochState::ComplaintSubmission => 2,
        EpochState::ComplaintVoting => 3,
        EpochState::VerificationKeySubmission => 4,
        EpochState::VerificationKeyMismatchSubmission => 5,
        EpochState::VerificationKeyMismatchVoting => 6,
        EpochState::InProgress => 7,
    }
}

/// The phase that stands at position `r` of the order.
pub open spec fn state_at(r: nat) -> EpochState
    recommends r <= 7
{
    if r == 0 {
        EpochState::PublicKeySubmission
    } else if r == 1 {
        EpochState::DealingExchange
    } else if r == 2 {
        EpochState::ComplaintSubmission
    } else if r == 3 {
        EpochState::ComplaintVoting
    } else if r == 4 {
        EpochState::VerificationKeySubmission
    } else if r == 5 {
        EpochState::VerificationKeyMismatchSubmission
    } else if r == 6 {
        EpochState::VerificationKeyMismatchVoting
    } else {
        EpochState::InProgress
    }
}

impl EpochState {
    /// The phase that follows this one; the terminal phase stays where it is.
    pub open spec fn next_spec(self) -> EpochState {
        if state_rank(self) < 7 {
            state_at(state_rank(self) + 1)
        } else {
            self
        }
    }

    /// The phase that follows this one; `None` for the terminal phase.
    pub fn next(self) -> (r: Option<EpochState>)
        ensures
            self == EpochState::InProgress <==> r is None,
            r matches Some(n) ==> state_rank(n) == state_rank(self) + 1 && n == self.next_spec(),
    {
        match self {
            EpochState::PublicKeySubmission => Some(EpochState::DealingExchange),
            EpochState::DealingExchange => Some(EpochState::ComplaintSubmission),
            EpochState::ComplaintSubmission => Some(EpochState::ComplaintVoting),
            EpochState::ComplaintVoting => Some(EpochState::VerificationKeySubmission),
            EpochState::VerificationKeySubmission => Some(
                EpochState::VerificationKeyMismatchSubmission,
            ),
            EpochState::VerificationKeyMismatchSubmission => Some(
                EpochState::VerificationKeyMismatchVoting,
            ),
            EpochState::VerificationKeyMismatchVoting => Some(EpochState::InProgress),
            EpochState::InProgress => None,
        }
    }

    /// Every phase from this one up to and including `end`, in order.
    pub fn all_until(&self, end: EpochState) -> (r: Vec<EpochState>)
        requires
            state_rank(*self) <= state_rank(end),
        ensures
            r@ == phases_between(*self, end),
    {
        let mut states: Vec<EpochState> = vec![*self];
        let mut cur = *self;
        proof {
            assert(states@ =~= Seq::new(1, |i: int| state_at((state_rank(*self) + i) as nat)));
        }
        while cur != end
            invariant
                state_rank(*self) <= state_rank(cur) <= state_rank(end),
                states@.len() == state_rank(cur) - state_rank(*self) + 1,
                forall|i: int|
                    0 <= i < states@.len() ==> #[trigger] states@[i] == state_at(
                        (state_rank(*self) + i) as nat,
                    ),
            decreases state_rank(end) - state_rank(cur),
        {
            let nx = cur.next();
            match nx {
                Some(n) => {
                    proof { lemma_state_at_rank(n); }
                    states.push(n);
                    cur = n;
                },
                None => {
                    proof {
                        lemma_rank_injective(cur, end);
                    }
                    cur = end;
                },
            }
        }
        proof {
            lemma_state_at_rank(*self);
            assert(states@ =~= phases_between(*self, end));
        }
        states
    }

    /// The phase's name, as events and logs spell it.
    pub fn as_str(&self) -> (r: &'static str)
        ensures
            r@ == state_name(*self),
    {
        match self {
            EpochState::PublicKeySubmission => "PublicKeySubmission",
            EpochState::DealingExchange => "DealingExchange",
            EpochState::ComplaintSubmission => "ComplaintSubmission",
            EpochState::ComplaintVoting => "ComplaintVoting",
            EpochState::VerificationKeySubmission => "VerificationKeySubmission",
            EpochState::VerificationKeyMismatchSubmission => "VerificationKeyMismatchSubmission",
            EpochState::VerificationKeyMismatchVoting => "VerificationKeyMismatchVoting",
            EpochState::InProgress => "InProgress",
        }
    }

    /// The phase's name as an owned string.
    pub fn to_string(&self) -> (r: String)
        ensures
            r@ == state_name(*self),
    {
        self.as_str().to_owned()
    }
}

/// The name of each phase.
pub open spec fn state_name(s: EpochState) -> Seq<char> {
    match s {
        EpochState::PublicKeySubmission => "PublicKeySubmission"@,
        EpochState::DealingExchange => "DealingExchange"@,
        EpochState::ComplaintSubmission => "ComplaintSubmission"@,
        EpochState::ComplaintVoting => "ComplaintVoting"@,
        EpochState::VerificationKeySubmission => "VerificationKeySubmission"@,
        EpochState::VerificationKeyMismatchSubmission => "VerificationKeyMismatchSubmission"@,
        EpochState::VerificationKeyMismatchVoting => "VerificationKeyMismatchVoting"@,
        EpochState::InProgress => "InProgress"@,
    }
}

/// The phases from `from` to `to`, both included, in the total order.
pub open spec fn phases_between(from: EpochState, to: EpochState) -> Seq<EpochState> {
    Seq::new(
        (state_rank(to) - state_rank(from) + 1) as nat,
        |i: int| state_at((state_rank(from) + i) as nat),
    )
}

/// Ranking a phase and reading the order at that rank gives the phase back.
pub proof fn lemma_state_at_rank(s: EpochState)
    ensures
        state_at(state_rank(s)) == s,
        state_rank(s) <= 7,
{
}

/// Distinct phases have distinct ranks.
pub proof fn lemma_rank_injective(a: EpochState, b: EpochState)
    ensures
        state_rank(a) == state_rank(b) <==> a == b,
{
}

/// Each rank of the order belongs to the phase found there.
pub proof fn lemma_rank_of_state_at(r: nat)
    requires
        r <= 7,
    ensures
        state_rank(state_at(r)) == r,
{
}

/// One observation to the next: the phase stayed, or moved to its successor.
pub open spec fn observed_step(a: EpochState, b: EpochState) -> bool {
    b == a || (state_rank(a) < 7 && b == a.next_spec())
}

/// Phase number `r` occurs among the observations.
pub open spec fn phase_seen(trace: Seq<EpochState>, r: nat) -> bool {
    exists|i: int| 0 <= i < trace.len() && #[trigger] state_rank(trace[i]) == r
}

proof fn lemma_step_rank(a: EpochState, b: EpochState)
    requires
        observed_step(a, b),
    ensures
        state_rank(a) <= state_rank(b) <= state_rank(a) + 1,
{
    if b != a {
        lemma_rank_of_state_at(state_rank(a) + 1);
    }
}

/// The phases observed within an epoch, starting from public-key submission and moving
/// only as the clock allows, run through a prefix of the total order: each observation
/// stays or moves one phase on, and every phase up to the last one seen was observed.
pub proof fn lemma_observed_states_prefix(trace: Seq<EpochState>)
    requires
        trace.len() > 0,
        trace[0] == EpochState::PublicKeySubmission,
        forall|i: int| 0 <= i < trace.len() - 1 ==> observed_step(#[trigger] trace[i], trace[i + 1]),
    ensures
        forall|i: int| 0 <= i < trace.len() - 1 ==> state_rank(#[trigger] trace[i]) <= state_rank(trace[i + 1]) <= state_rank(trace[i]) + 1,
        forall|r: nat| r <= state_rank(trace.last()) ==> #[trigger] phase_seen(trace, r),
        forall|i: int| 0 <= i < trace.len() ==> state_rank(#[trigger] trace[i]) <= i,
    decreases trace.len(),
{
    assert forall|i: int| 0 <= i < trace.len() - 1 implies state_rank(#[trigger] trace[i]) <= state_rank(trace[i + 1]) <= state_rank(trace[i]) + 1 by {
        lemma_step_rank(trace[i], trace[i + 1]);
    }
    if trace.len() > 1 {
        let pre = trace.drop_last();
        let n = trace.len() - 1;
        assert forall|i: int| 0 <= i < pre.len() - 1 implies observed_step(#[trigger] pre[i], pre[i + 1]) by {
            assert(pre[i] == trace[i] && pre[i + 1] == trace[i + 1]);
        }
        lemma_observed_states_prefix(pre);
        assert(pre.last() == trace[n - 1]);
        lemma_step_rank(trace[n - 1], trace[n]);
        assert forall|r: nat| r <= state_rank(trace.last()) implies #[trigger] phase_seen(trace, r) by {
            if r <= state_rank(pre.last()) {
                assert(phase_seen(pre, r));
                let i = choose|i: int| 0 <= i < pre.len() && #[trigger] state_rank(pre[i]) == r;
                assert(trace[i] == pre[i]);
            } else {
                assert(state_rank(trace[n]) == r);
            }
        }
        assert forall|i: int| 0 <= i < trace.len() implies state_rank(#[trigger] trace[i]) <= i by {
            if i < n {
                assert(trace[i] == pre[i]);
            } else {
                assert(state_rank(pre[n - 1]) <= n - 1);
            }
        }
    } else {
        assert(phase_seen(trace, 0));
    }
}

/// The threshold of an epoch with `n` registered dealers: two thirds of them, rounded
/// down, plus one.
pub open spec fn threshold_of(n: nat) -> nat {
    (2 * n) / 3 + 1
}

/// Computes the threshold for `n` registered dealers without overflow.
pub fn threshold_for(n: u64) -> (t: u64)
    ensures
        t == threshold_of(n as nat),
{
    let third = n / 3;
    let rem = n % 3;
    let extra: u64 = if rem == 2 { 1 } else { 0 };
    proof {
        assert(n == 3 * third + rem) by (nonlinear_arith)
            requires third == n / 3, rem == n % 3;
        assert((2 * n) / 3 == 2 * third + extra) by (nonlinear_arith)
            requires n == 3 * third + rem, rem < 3, extra == (if rem == 2 { 1int } else { 0int });
    }
    2 * third + extra + 1
}

} // verus!
