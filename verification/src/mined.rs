//! The set of mined pairs that wait to be claimed.

use crate::primitives::{Address, U256};
use vstd::prelude::*;

verus! {

/// One entry of a reward claim: a miner's address with a nonce that it mined.
#[derive(Debug, Clone, Copy, PartialEq, Eq)]
pub struct MinerData {
    pub miner_address: Address,
    pub nonce: U256,
}

/// The claim entry that stands for a mined pair.
pub open spec fn claim_entry(pair: (Address, U256)) -> MinerData {
    MinerData { miner_address: pair.0, nonce: pair.1 }
}

/// The claim entries that stand for a list of mined pairs, in the same order.
pub open spec fn claim_entries(pairs: Seq<(Address, U256)>) -> Seq<MinerData> {
    pairs.map_values(|pair: (Address, U256)| claim_entry(pair))
}

/// The mined pairs that wait for a claim: a set, kept in the order in which its members
/// first came.
#[derive(Debug)]
pub struct MinedSet {
    items: Vec<(Address, U256)>,
}

impl MinedSet {
    #[verifier::type_invariant]
    spec fn unique(self) -> bool {
        self.items@.no_duplicates()
    }

    /// The members in the order in which they first came; no pair occurs twice.
    pub closed spec fn order(&self) -> Seq<(Address, U256)> {
        self.items@
    }

    /// The set of pairs held.
    pub open spec fn view(&self) -> Set<(Address, U256)> {
        self.order().to_set()
    }

    /// The empty set.
    pub fn new() -> (set: Self)
        ensures
            set@ == Set::<(Address, U256)>::empty(),
            set.order() == Seq::<(Address, U256)>::empty(),
    {
        let set = MinedSet { items: Vec::new() };
        assert(set.items@.to_set() =~= Set::<(Address, U256)>::empty());
        set
    }

    /// Whether `pair` is a member.
    pub fn contains(&self, pair: &(Address, U256)) -> (found: bool)
        ensures
            found == self@.contains(*pair),
    {
        let mut i: usize = 0;
        while i < self.items.len()
            invariant
                0 <= i <= self.items.len(),
                forall|j: int| 0 <= j < i ==> self.items[j] != *pair,
            decreases self.items.len() - i,
        {
            if self.items[i].0.is_equal(&pair.0) && self.items[i].1.is_equal(&pair.1) {
                assert(self.items@[i as int] == *pair);
                return true;
            }
            i += 1;
        }
        false
    }

    /// Adds `pair`; a pair that is already a member changes nothing. Returns whether the
    /// pair was new.
    pub fn insert(&mut self, pair: (Address, U256)) -> (added: bool)
        ensures
            final(self)@ == old(self)@.insert(pair),
            added == !old(self)@.contains(pair),
            final(self).order() == if added {
                old(self).order().push(pair)
            } else {
                old(self).order()
            },
    {
        proof {
            use_type_invariant(&*self);
        }
        if self.contains(&pair) {
            assert(self.items@.to_set().insert(pair) =~= self.items@.to_set());
            false
        } else {
            let mut items = Vec::new();
            std::mem::swap(&mut items, &mut self.items);
            let ghost before = items@;
            items.push(pair);
            proof {
                before.lemma_push_to_set_commute(pair);
                assert(!before.contains(pair));
                assert(items@.no_duplicates());
            }
            self.items = items;
            true
        }
    }

    /// The number of members.
    pub fn len(&self) -> (count: usize)
        ensures
            count == self@.len(),
            count == self.order().len(),
            self.order().no_duplicates(),
            self@.finite(),
    {
        proof {
            use_type_invariant(self);
            self.items@.unique_seq_to_set();
        }
        self.items.len()
    }

    /// A copy of the members, in the order in which they first came.
    pub fn snapshot(&self) -> (pairs: Vec<(Address, U256)>)
        ensures
            pairs@ == self.order(),
            pairs@.to_set() == self@,
    {
        let mut pairs: Vec<(Address, U256)> = Vec::new();
        let mut i: usize = 0;
        while i < self.items.len()
            invariant
                0 <= i <= self.items.len(),
                pairs@ == self.items@.take(i as int),
            decreases self.items.len() - i,
        {
            pairs.push(self.items[i]);
            assert(self.items@.take(i + 1) =~= self.items@.take(i as int).push(
                self.items@[i as int],
            ));
            i += 1;
        }
        assert(self.items@.take(self.items.len() as int) =~= self.items@);
        pairs
    }

    /// Takes every member out, as claim entries in the order in which the members first
    /// came, and leaves the set empty.
    pub fn drain(&mut self) -> (batch: Vec<MinerData>)
        ensures
            final(self)@ == Set::<(Address, U256)>::empty(),
            final(self).order() == Seq::<(Address, U256)>::empty(),
            batch@ == claim_entries(old(self).order()),
    {
        let mut items = Vec::new();
        std::mem::swap(&mut items, &mut self.items);
        assert(self.items@.to_set() =~= Set::<(Address, U256)>::empty());
        let mut batch: Vec<MinerData> = Vec::new();
        let mut i: usize = 0;
        while i < items.len()
            invariant
                0 <= i <= items.len(),
                batch@ == items@.take(i as int).map_values(
                    |pair: (Address, U256)| claim_entry(pair),
                ),
            decreases items.len() - i,
        {
            let pair = items[i];
            batch.push(MinerData { miner_address: pair.0, nonce: pair.1 });
            proof {
                assert(items@.take(i + 1) =~= items@.take(i as int).push(pair));
                assert(items@.take(i + 1).map_values(|pair: (Address, U256)| claim_entry(pair))
                    =~= items@.take(i as int).map_values(
                    |pair: (Address, U256)| claim_entry(pair),
                ).push(claim_entry(pair)));
            }
            i += 1;
        }
        assert(items@.take(items.len() as int) =~= items@);
        batch
    }
}

/// Adding a pair that is already a member changes neither the set nor its size.
pub proof fn lemma_insert_is_idempotent(set: Set<(Address, U256)>, pair: (Address, U256))
    ensures
        set.insert(pair).insert(pair) == set.insert(pair),
        set.insert(pair).insert(pair).len() == set.insert(pair).len(),
{
    assert(set.insert(pair).insert(pair) =~= set.insert(pair));
}

} // verus!
