use vstd::prelude::*;

use crate::error::DkgError;

verus! {

/// What a dealer registered with: its keys and where it can be reached.
pub struct DealerRecord {
    pub node_index: u64,
    pub address: String,
    pub bte_key_with_proof: String,
    pub identity_key: String,
    pub announce_address: String,
    pub registered_at_epoch: u64,
}

/// The dealers of the current epoch, in registration order.
pub struct DealerRegistry {
    pub dealers: Vec<DealerRecord>,
    /// Whether each dealer, by position, is still active.
    pub active: Vec<bool>,
}

impl DealerRegistry {
    /// Dealer `i` (in registration order) has node index `i + 1`, each address is
    /// registered once, and each dealer has an activity flag.
    pub open spec fn wf(&self) -> bool {
        &&& self.active@.len() == self.dealers@.len()
        &&& self.dealers@.len() < u64::MAX
        &&& forall|i: int|
            0 <= i < self.dealers@.len() ==> #[trigger] self.dealers@[i].node_index == i + 1
        &&& forall|i: int, j: int|
            0 <= i < j < self.dealers@.len() ==> #[trigger] self.dealers@[i].address@
                != #[trigger] self.dealers@[j].address@
    }

    pub open spec fn len(&self) -> nat {
        self.dealers@.len()
    }

    /// Whether `address` is registered.
    pub open spec fn holds(&self, address: Seq<char>) -> bool {
        exists|i: int| 0 <= i < self.dealers@.len() && #[trigger] self.dealers@[i].address@ == address
    }

    /// Whether some registered dealer has node index `k`.
    pub open spec fn has_node(&self, k: u64) -> bool {
        exists|i: int| 0 <= i < self.dealers@.len() && #[trigger] self.dealers@[i].node_index == k
    }

    /// Whether the dealer with node index `node` is registered and active.
    pub open spec fn is_active_spec(&self, node: u64) -> bool {
        1 <= node <= self.dealers@.len() && self.active@[node - 1]
    }

    /// How many registered dealers are active.
    pub open spec fn active_count(&self) -> nat {
        count_true(self.active@)
    }

    /// Counts the active dealers.
    pub fn count_active(&self) -> (r: u64)
        requires
            self.wf(),
        ensures
            r == self.active_count(),
    {
        let mut c: u64 = 0;
        let mut i: usize = 0;
        while i < self.active.len()
            invariant
                self.wf(),
                i <= self.active@.len(),
                c == count_true(self.active@.subrange(0, i as int)),
                c <= i,
            decreases self.active@.len() - i,
        {
            proof {
                assert(self.active@.subrange(0, i + 1).drop_last() =~= self.active@.subrange(0, i as int));
            }
            if self.active[i] {
                c = c + 1;
            }
            i = i + 1;
        }
        proof {
            assert(self.active@.subrange(0, i as int) =~= self.active@);
        }
        c
    }

    pub fn new() -> (r: DealerRegistry)
        ensures
            r.wf(),
            r.len() == 0,
    {
        DealerRegistry { dealers: Vec::new(), active: Vec::new() }
    }

    /// The position of the dealer registered under `address`.
    pub fn position_of(&self, address: &String) -> (r: Option<usize>)
        requires
            self.wf(),
        ensures
            match r {
                Some(i) => i < self.dealers@.len() && self.dealers@[i as int].address@ == address@,
                None => !self.holds(address@),
            },
    {
        let mut i: usize = 0;
        while i < self.dealers.len()
            invariant
                i <= self.dealers@.len(),
                forall|k: int| 0 <= k < i ==> self.dealers@[k].address@ != address@,
            decreases self.dealers@.len() - i,
        {
            if self.dealers[i].address == *address {
                return Some(i);
            }
            i = i + 1;
        }
        None
    }

    /// The record of the dealer registered under `address`.
    pub fn get(&self, address: &String) -> (r: Option<&DealerRecord>)
        requires
            self.wf(),
        ensures
            match r {
                Some(d) => d.address@ == address@ && self.dealers@[d.node_index - 1] == *d
                    && 1 <= d.node_index <= self.dealers@.len(),
                None => !self.holds(address@),
            },
    {
        match self.position_of(address) {
            Some(i) => Some(&self.dealers[i]),
            None => None,
        }
    }

    /// The node index of the dealer registered under `address`.
    pub fn node_index_of(&self, address: &String) -> (r: Option<u64>)
        requires
            self.wf(),
        ensures
            match r {
                Some(n) => 1 <= n <= self.dealers@.len() && self.dealers@[n - 1].address@
                    == address@,
                None => !self.holds(address@),
            },
    {
        match self.position_of(address) {
            Some(i) => Some(self.dealers[i].node_index),
            None => None,
        }
    }

    /// Every registered dealer, by ascending node index.
    pub fn list(&self) -> (r: &Vec<DealerRecord>)
        ensures
            r@ == self.dealers@,
    {
        &self.dealers
    }

    /// Whether the dealer with node index `node` is registered and active.
    pub fn is_active(&self, node: u64) -> (r: bool)
        requires
            self.wf(),
        ensures
            r == self.is_active_spec(node),
    {
        node >= 1 && node <= self.dealers.len() as u64 && self.active[(node - 1) as usize]
    }

    /// Registers a dealer under the next node index. A second registration of an address
    /// is refused, and so is a key whose proof did not check.
    pub fn register(
        &mut self,
        address: String,
        bte_key_with_proof: String,
        identity_key: String,
        announce_address: String,
        proof_valid: bool,
        epoch_id: u64,
    ) -> (r: Result<u64, DkgError>)
        requires
            old(self).wf(),
        ensures
            final(self).wf(),
            old(self).holds(address@) ==> r == Err::<u64, DkgError>(
                DkgError::DuplicateRegistration,
            ),
            !old(self).holds(address@) && !proof_valid ==> r == Err::<u64, DkgError>(
                DkgError::InvalidProof,
            ),
            !old(self).holds(address@) && proof_valid && old(self).len() + 1 >= u64::MAX ==> r
                == Err::<u64, DkgError>(DkgError::CapacityExceeded),
            r is Ok <==> (!old(self).holds(address@) && proof_valid && old(self).len() + 1
                < u64::MAX),
            r is Err ==> *final(self) == *old(self),
            r matches Ok(n) ==> {
                &&& n == old(self).len() + 1
                &&& final(self).dealers@ == old(self).dealers@.push(final(self).dealers@.last())
                &&& final(self).active@ == old(self).active@.push(true)
                &&& final(self).dealers@.last().address@ == address@
                &&& final(self).dealers@.last().node_index == n
                &&& final(self).dealers@.last().bte_key_with_proof@ == bte_key_with_proof@
                &&& final(self).dealers@.last().identity_key@ == identity_key@
                &&& final(self).dealers@.last().announce_address@ == announce_address@
                &&& final(self).dealers@.last().registered_at_epoch == epoch_id
            },
    {
        if self.position_of(&address).is_some() {
            return Err(DkgError::DuplicateRegistration);
        }
        if !proof_valid {
            return Err(DkgError::InvalidProof);
        }
        if self.dealers.len() as u64 >= u64::MAX - 1 {
            return Err(DkgError::CapacityExceeded);
        }
        let node_index = self.dealers.len() as u64 + 1;
        let record = DealerRecord {
            node_index,
            address,
            bte_key_with_proof,
            identity_key,
            announce_address,
            registered_at_epoch: epoch_id,
        };
        self.dealers.push(record);
        self.active.push(true);
        Ok(node_index)
    }

    /// Marks the dealer with node index `node` inactive. Doing it again changes nothing.
    pub fn deactivate(&mut self, node: u64)
        requires
            old(self).wf(),
        ensures
            final(self).wf(),
            final(self).dealers@ == old(self).dealers@,
            forall|k: u64|
                #[trigger] final(self).is_active_spec(k) == (old(self).is_active_spec(k) && k
                    != node),
    {
        if node >= 1 && node <= self.dealers.len() as u64 {
            self.active.set((node - 1) as usize, false);
        }
    }
}

/// How many entries of `s` are true.
pub open spec fn count_true(s: Seq<bool>) -> nat
    decreases s.len(),
{
    if s.len() == 0 {
        0
    } else {
        count_true(s.drop_last()) + if s.last() { 1nat } else { 0nat }
    }
}

/// Node indices of the registered dealers are exactly 1 to n, handed out in
/// registration order.
pub proof fn lemma_node_indices_contiguous(reg: DealerRegistry)
    requires
        reg.wf(),
    ensures
        forall|k: u64| #[trigger] reg.has_node(k) <==> 1 <= k <= reg.len(),
        forall|i: int, j: int|
            0 <= i < j < reg.len() ==> #[trigger] reg.dealers@[i].node_index
                < #[trigger] reg.dealers@[j].node_index,
{
    assert forall|k: u64| #[trigger] reg.has_node(k) <==> 1 <= k <= reg.len() by {
        if 1 <= k <= reg.len() {
            assert(reg.dealers@[k - 1].node_index == k);
        }
    }
}

/// After a dealer registers, looking its address up gives the record with the node index
/// that the registration returned.
pub proof fn lemma_register_then_lookup(
    before: DealerRegistry,
    after: DealerRegistry,
    address: Seq<char>,
    node: u64,
)
    requires
        before.wf(),
        after.wf(),
        !before.holds(address),
        after.dealers@ == before.dealers@.push(after.dealers@.last()),
        after.dealers@.last().address@ == address,
        after.dealers@.last().node_index == node,
    ensures
        after.holds(address),
        forall|i: int|
            0 <= i < after.len() && #[trigger] after.dealers@[i].address@ == address
                ==> after.dealers@[i].node_index == node,
{
    let last = after.len() - 1;
    assert(after.dealers@[last].address@ == address);
    assert forall|i: int|
        0 <= i < after.len() && #[trigger] after.dealers@[i].address@ == address implies after.dealers@[i].node_index
            == node by {
        if i < last {
            assert(after.dealers@[i] == before.dealers@[i]);
        }
    }
}

} // verus!
