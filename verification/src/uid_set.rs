//! Sets of source identifiers. The drain coordinator records which sources
//! announced themselves with a start signal and which have drained; drain is
//! complete exactly when the drained set covers the started set.

use vstd::prelude::*;

verus! {

/// A set of source identifiers.
pub struct UidSet {
    items: Vec<u64>,
}

impl View for UidSet {
    type V = Set<u64>;

    closed spec fn view(&self) -> Set<u64> {
        self.items@.to_set()
    }
}

impl UidSet {
    #[verifier::type_invariant]
    spec fn type_inv(self) -> bool {
        forall|i: int, j: int| 0 <= i < j < self.items@.len() ==> self.items@[i] != self.items@[j]
    }

    /// An empty set.
    pub fn new() -> (r: Self)
        ensures
            r@ == Set::<u64>::empty(),
    {
        let r = UidSet { items: Vec::new() };
        proof {
            assert(r@ =~= Set::<u64>::empty());
        }
        r
    }

    /// Whether the identifier is in the set.
    #[verifier::loop_isolation(false)]
    pub fn contains(&self, uid: u64) -> (r: bool)
        ensures
            r == self@.contains(uid),
    {
        let n = self.items.len();
        let mut i: usize = 0;
        while i < n
            invariant
                n == self.items@.len(),
                i <= n,
                forall|j: int| 0 <= j < i ==> self.items@[j] != uid,
            decreases n - i,
        {
            if self.items[i] == uid {
                proof {
                    assert(self.items@.contains(uid));
                }
                return true;
            }
            i += 1;
        }
        proof {
            assert(!self.items@.contains(uid));
        }
        false
    }

    /// Adds the identifier to the set.
    pub fn insert(&mut self, uid: u64)
        ensures
            final(self)@ == old(self)@.insert(uid),
    {
        proof {
            use_type_invariant(&*self);
        }
        if !self.contains(uid) {
            let mut items: Vec<u64> = Vec::new();
            std::mem::swap(&mut items, &mut self.items);
            let ghost s0 = items@;
            items.push(uid);
            proof {
                assert(items@.drop_last() =~= s0);
                assert(items@.last() == uid);
                assert(forall|j: int| 0 <= j < s0.len() ==> s0[j] != uid);
                assert(items@.to_set() =~= s0.to_set().insert(uid));
            }
            self.items = items;
        } else {
            proof {
                assert(self@ =~= self@.insert(uid));
            }
        }
    }

    /// Whether every identifier of `other` is in this set.
    #[verifier::loop_isolation(false)]
    pub fn is_superset(&self, other: &UidSet) -> (r: bool)
        ensures
            r == other@.subset_of(self@),
    {
        let n = other.items.len();
        let mut i: usize = 0;
        while i < n
            invariant
                n == other.items@.len(),
                i <= n,
                forall|j: int| 0 <= j < i ==> self@.contains(#[trigger] other.items@[j]),
            decreases n - i,
        {
            if !self.contains(other.items[i]) {
                proof {
                    assert(other.items@.contains(other.items@[i as int]));
                    assert(other@.contains(other.items@[i as int]));
                }
                return false;
            }
            i += 1;
        }
        proof {
            assert forall|x: u64| other@.contains(x) implies self@.contains(x) by {
                let j = choose|j: int| 0 <= j < other.items@.len() && other.items@[j] == x;
                assert(self@.contains(other.items@[j]));
            }
        }
        true
    }

    /// The number of identifiers in the set.
    pub fn len(&self) -> (r: usize)
        ensures
            r == self@.len(),
    {
        proof {
            use_type_invariant(&*self);
            self.items@.unique_seq_to_set();
        }
        self.items.len()
    }
}

impl Clone for UidSet {
    /// A clone holds the same identifiers.
    #[verifier::loop_isolation(false)]
    fn clone(&self) -> (r: Self)
        ensures
            r@ == self@,
    {
        proof {
            use_type_invariant(&*self);
        }
        let n = self.items.len();
        let mut items: Vec<u64> = Vec::new();
        let mut i: usize = 0;
        while i < n
            invariant
                n == self.items@.len(),
                i <= n,
                items@ == self.items@.take(i as int),
            decreases n - i,
        {
            items.push(self.items[i]);
            proof {
                assert(items@ =~= self.items@.take(i + 1));
            }
            i += 1;
        }
        proof {
            assert(items@ =~= self.items@);
        }
        UidSet { items }
    }
}

} // verus!
