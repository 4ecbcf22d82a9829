use vstd::prelude::*;

use crate::error::DkgError;

verus! {

/// A dealing committed by a dealer in an epoch, under its dealing index. The dealer is
/// named by its node index in that epoch and by its address.
pub struct Dealing {
    pub epoch_id: u64,
    pub dealer: u64,
    pub dealer_address: String,
    pub index: u64,
    pub commitment: Vec<u8>,
}

/// The committed dealings of all epochs, at most one per epoch, dealer and index.
pub struct DealingLedger {
    pub dealings: Vec<Dealing>,
}

pub open spec fn same_key(d: Dealing, epoch_id: u64, dealer: u64, index: u64) -> bool {
    d.epoch_id == epoch_id && d.dealer == dealer && d.index == index
}

impl DealingLedger {
    /// No two dealings share their epoch, dealer and index.
    pub open spec fn wf(&self) -> bool {
        forall|i: int, j: int|
            0 <= i < j < self.dealings@.len() ==> !same_key(
                #[trigger] self.dealings@[i],
                self.dealings@[j].epoch_id,
                self.dealings@[j].dealer,
                #[trigger] self.dealings@[j].index,
            )
    }

    /// Whether a dealing is recorded under the key.
    pub open spec fn has(&self, epoch_id: u64, dealer: u64, index: u64) -> bool {
        exists|i: int|
            0 <= i < self.dealings@.len() && same_key(#[trigger] self.dealings@[i], epoch_id, dealer, index)
    }

    /// Whether the dealer with this address committed a dealing under the key.
    pub open spec fn has_address(&self, epoch_id: u64, address: Seq<char>, index: u64) -> bool {
        exists|i: int|
            0 <= i < self.dealings@.len() && #[trigger] self.dealings@[i].epoch_id == epoch_id
                && self.dealings@[i].dealer_address@ == address && self.dealings@[i].index == index
    }

    /// Whether the dealer has committed every index below `count` in the epoch.
    pub open spec fn complete(&self, epoch_id: u64, dealer: u64, count: u64) -> bool {
        forall|k: u64| k < count ==> #[trigger] self.has(epoch_id, dealer, k)
    }

    pub fn new() -> (r: DealingLedger)
        ensures
            r.wf(),
            r.dealings@.len() == 0,
    {
        DealingLedger { dealings: Vec::new() }
    }

    /// Whether the dealer committed a dealing under `index` in the epoch.
    pub fn status(&self, epoch_id: u64, dealer: u64, index: u64) -> (r: bool)
        ensures
            r == self.has(epoch_id, dealer, index),
    {
        let mut i: usize = 0;
        while i < self.dealings.len()
            invariant
                i <= self.dealings@.len(),
                forall|k: int| 0 <= k < i ==> !same_key(#[trigger] self.dealings@[k], epoch_id, dealer, index),
            decreases self.dealings@.len() - i,
        {
            let d = &self.dealings[i];
            if d.epoch_id == epoch_id && d.dealer == dealer && d.index == index {
                return true;
            }
            i = i + 1;
        }
        false
    }

    /// Whether the dealer committed all of its `count` dealings in the epoch.
    pub fn is_complete(&self, epoch_id: u64, dealer: u64, count: u64) -> (r: bool)
        ensures
            r == self.complete(epoch_id, dealer, count),
    {
        let mut k: u64 = 0;
        while k < count
            invariant
                k <= count,
                forall|j: u64| j < k ==> #[trigger] self.has(epoch_id, dealer, j),
            decreases count - k,
        {
            if !self.status(epoch_id, dealer, k) {
                return false;
            }
            k = k + 1;
        }
        true
    }

    /// Whether the dealer with this address committed a dealing under `index` in the epoch.
    pub fn status_of_address(&self, epoch_id: u64, address: &String, index: u64) -> (r: bool)
        ensures
            r == self.has_address(epoch_id, address@, index),
    {
        let mut i: usize = 0;
        while i < self.dealings.len()
            invariant
                i <= self.dealings@.len(),
                forall|k: int| 0 <= k < i ==> !(#[trigger] self.dealings@[k].epoch_id == epoch_id
                    && self.dealings@[k].dealer_address@ == address@ && self.dealings@[k].index == index),
            decreases self.dealings@.len() - i,
        {
            let d = &self.dealings[i];
            if d.epoch_id == epoch_id && d.dealer_address == *address && d.index == index {
                return true;
            }
            i = i + 1;
        }
        false
    }

    /// Records a dealing. The index must be below `count`, the number of dealings each
    /// dealer makes, and the key must not be taken yet.
    pub fn submit(
        &mut self,
        epoch_id: u64,
        dealer: u64,
        dealer_address: String,
        index: u64,
        commitment: Vec<u8>,
        count: u64,
    ) -> (r: Result<(), DkgError>)
        requires
            old(self).wf(),
        ensures
            final(self).wf(),
            index >= count ==> r == Err::<(), DkgError>(DkgError::IndexOutOfBounds),
            index < count && old(self).has(epoch_id, dealer, index) ==> r == Err::<(), DkgError>(
                DkgError::AlreadySubmitted,
            ),
            r is Ok <==> index < count && !old(self).has(epoch_id, dealer, index),
            r is Err ==> final(self).dealings@ == old(self).dealings@,
            r is Ok ==> final(self).dealings@ == old(self).dealings@.push(
                Dealing { epoch_id, dealer, dealer_address, index, commitment },
            ),
            forall|e: u64, d: u64, k: u64| #[trigger] final(self).has(e, d, k) == (old(self).has(e, d, k) || (r is Ok && e == epoch_id && d == dealer && k == index)),
    {
        if index >= count {
            return Err(DkgError::IndexOutOfBounds);
        }
        if self.status(epoch_id, dealer, index) {
            return Err(DkgError::AlreadySubmitted);
        }
        let ghost before = self.dealings@;
        self.dealings.push(Dealing { epoch_id, dealer, dealer_address, index, commitment });
        proof {
            assert forall|e: u64, d: u64, k: u64| #[trigger] self.has(e, d, k) == (old(self).has(e, d, k) || (e == epoch_id && d == dealer && k == index)) by {
                if old(self).has(e, d, k) {
                    let i = choose|i: int| 0 <= i < before.len() && same_key(#[trigger] before[i], e, d, k);
                    assert(self.dealings@[i] == before[i]);
                }
                if self.has(e, d, k) {
                    let i = choose|i: int| 0 <= i < self.dealings@.len() && same_key(#[trigger] self.dealings@[i], e, d, k);
                    if i < before.len() {
                        assert(self.dealings@[i] == before[i]);
                    }
                }
                if e == epoch_id && d == dealer && k == index {
                    assert(same_key(self.dealings@[before.len() as int], e, d, k));
                }
            }
        }
        Ok(())
    }

    /// The dealing indices the dealer with this address committed in the epoch, in
    /// submission order, each with the position of its dealing in the ledger.
    pub fn list(&self, epoch_id: u64, address: &String) -> (r: Vec<(u64, usize)>)
        ensures
            forall|j: int| 0 <= j < r@.len() ==> {
                &&& (#[trigger] r@[j]).1 < self.dealings@.len()
                &&& self.dealings@[r@[j].1 as int].epoch_id == epoch_id
                &&& self.dealings@[r@[j].1 as int].dealer_address@ == address@
                &&& self.dealings@[r@[j].1 as int].index == r@[j].0
            },
            forall|j: int, k: int| 0 <= j < k < r@.len() ==> (#[trigger] r@[j]).1 < (#[trigger] r@[k]).1,
            forall|i: int| 0 <= i < self.dealings@.len() && #[trigger] self.dealings@[i].epoch_id == epoch_id && self.dealings@[i].dealer_address@ == address@ ==> exists|j: int| 0 <= j < r@.len() && #[trigger] r@[j].1 == i,
    {
        let mut out: Vec<(u64, usize)> = Vec::new();
        let mut i: usize = 0;
        while i < self.dealings.len()
            invariant
                i <= self.dealings@.len(),
                forall|j: int| 0 <= j < out@.len() ==> {
                    &&& (#[trigger] out@[j]).1 < i
                    &&& self.dealings@[out@[j].1 as int].epoch_id == epoch_id
                    &&& self.dealings@[out@[j].1 as int].dealer_address@ == address@
                    &&& self.dealings@[out@[j].1 as int].index == out@[j].0
                },
                forall|j: int, k: int| 0 <= j < k < out@.len() ==> (#[trigger] out@[j]).1 < (#[trigger] out@[k]).1,
                forall|k: int| 0 <= k < i && #[trigger] self.dealings@[k].epoch_id == epoch_id && self.dealings@[k].dealer_address@ == address@ ==> exists|j: int| 0 <= j < out@.len() && #[trigger] out@[j].1 == k,
            decreases self.dealings@.len() - i,
        {
            let d = &self.dealings[i];
            let ghost prev = out@;
            if d.epoch_id == epoch_id && d.dealer_address == *address {
                out.push((d.index, i));
                proof {
                    assert(out@[out@.len() - 1].1 == i);
                    assert forall|j: int, k: int| 0 <= j < k < out@.len() implies (#[trigger] out@[j]).1 < (#[trigger] out@[k]).1 by {
                        assert(out@[j] == if j < prev.len() { prev[j] } else { (d.index, i) });
                        if k < prev.len() {
                            assert(out@[k] == prev[k]);
                        }
                    }
                    assert forall|k: int| 0 <= k < i && #[trigger] self.dealings@[k].epoch_id == epoch_id && self.dealings@[k].dealer_address@ == address@ implies exists|j: int| 0 <= j < out@.len() && #[trigger] out@[j].1 == k by {
                        let j = choose|j: int| 0 <= j < prev.len() && #[trigger] prev[j].1 == k;
                        assert(out@[j] == prev[j]);
                    }
                }
            }
            i = i + 1;
        }
        out
    }
}

/// Once a dealing is submitted, its status reads true.
pub proof fn lemma_submit_then_status(
    before: DealingLedger,
    after: DealingLedger,
    epoch_id: u64,
    dealer: u64,
    dealer_address: String,
    index: u64,
    commitment: Vec<u8>,
)
    requires
        after.dealings@ == before.dealings@.push(
            Dealing { epoch_id, dealer, dealer_address, index, commitment },
        ),
    ensures
        after.has(epoch_id, dealer, index),
        after.has_address(epoch_id, dealer_address@, index),
{
    let last = before.dealings@.len() as int;
    assert(same_key(after.dealings@[last], epoch_id, dealer, index));
    assert(after.dealings@[last].dealer_address@ == dealer_address@);
}

/// A dealing is accepted at most once under its epoch, dealer and index: a second
/// submission under a recorded key is refused.
pub proof fn lemma_submit_at_most_once(ledger: DealingLedger, epoch_id: u64, dealer: u64, index: u64)
    requires
        ledger.wf(),
        ledger.has(epoch_id, dealer, index),
    ensures
        forall|i: int, j: int|
            0 <= i < j < ledger.dealings@.len() && same_key(#[trigger] ledger.dealings@[i], epoch_id, dealer, index)
                ==> !same_key(#[trigger] ledger.dealings@[j], epoch_id, dealer, index),
{
}

} // verus!
