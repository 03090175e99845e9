//! The operator trail attached to every event: a map from operator identifier
//! to a small value. Contraflow is routed back only to operators an event
//! actually visited, so the sink keeps both per-event trails and a merged
//! trail accumulated over its lifetime.

use vstd::prelude::*;

verus! {

/// The map represented by an association list with unique keys.
pub open spec fn pairs_to_map<V>(s: Seq<(u64, V)>) -> Map<u64, V>
    decreases s.len(),
{
    if s.len() == 0 {
        Map::empty()
    } else {
        pairs_to_map(s.drop_last()).insert(s.last().0, s.last().1)
    }
}

/// Key uniqueness of an association list.
pub open spec fn unique_keys<V>(s: Seq<(u64, V)>) -> bool {
    forall|i: int, j: int|
        0 <= i < j < s.len() ==> (#[trigger] s[i]).0 != (#[trigger] s[j]).0
}

proof fn lemma_pairs_to_map_domain<V>(s: Seq<(u64, V)>)
    ensures
        forall|k: u64|
            pairs_to_map(s).dom().contains(k) <==> exists|i: int|
                0 <= i < s.len() && (#[trigger] s[i]).0 == k,
    decreases s.len(),
{
    if s.len() > 0 {
        let n = s.len() as int;
        lemma_pairs_to_map_domain(s.drop_last());
        assert forall|k: u64| pairs_to_map(s).dom().contains(k) implies exists|i: int|
            0 <= i < s.len() && (#[trigger] s[i]).0 == k by {
            if k == s.last().0 {
                assert(0 <= n - 1 < s.len() && (#[trigger] s[n - 1]).0 == k);
            } else {
                assert(pairs_to_map(s.drop_last()).dom().contains(k));
                let i = choose|i: int|
                    0 <= i < s.drop_last().len() && (#[trigger] s.drop_last()[i]).0 == k;
                assert(s.drop_last()[i] == s[i]);
                assert(0 <= i < s.len() && (#[trigger] s[i]).0 == k);
            }
        }
        assert forall|k: u64| (exists|i: int| 0 <= i < s.len() && (#[trigger] s[i]).0 == k) implies
            pairs_to_map(s).dom().contains(k) by {
            let i = choose|i: int| 0 <= i < s.len() && (#[trigger] s[i]).0 == k;
            if i < n - 1 {
                assert(s.drop_last()[i] == s[i]);
                assert((#[trigger] s.drop_last()[i]).0 == k);
                assert(pairs_to_map(s.drop_last()).dom().contains(k));
            } else {
                assert(k == s.last().0);
            }
        }
    }
}

proof fn lemma_pairs_to_map_index<V>(s: Seq<(u64, V)>, i: int)
    requires
        unique_keys(s),
        0 <= i < s.len(),
    ensures
        pairs_to_map(s).contains_key(s[i].0),
        pairs_to_map(s)[s[i].0] == s[i].1,
    decreases s.len(),
{
    if i == s.len() - 1 {
        assert(s.last() == s[i]);
    } else {
        assert(unique_keys(s.drop_last()));
        assert(s.drop_last()[i] == s[i]);
        lemma_pairs_to_map_index(s.drop_last(), i);
        assert(s[i].0 != s.last().0);
    }
}

/// The operator trail: a mergeable map from operator identifier to a value.
pub struct OpMeta {
    entries: Vec<(u64, u64)>,
}

impl View for OpMeta {
    type V = Map<u64, u64>;

    closed spec fn view(&self) -> Map<u64, u64> {
        pairs_to_map(self.entries@)
    }
}

impl OpMeta {
    #[verifier::type_invariant]
    spec fn type_inv(self) -> bool {
        unique_keys(self.entries@)
    }

    /// An empty trail.
    pub fn new() -> (r: Self)
        ensures
            r@ == Map::<u64, u64>::empty(),
    {
        OpMeta { entries: Vec::new() }
    }

    /// Records the value for one operator, overriding an earlier entry.
    #[verifier::loop_isolation(false)]
    pub fn insert(&mut self, key: u64, value: u64)
        ensures
            final(self)@ == old(self)@.insert(key, value),
    {
        proof {
            use_type_invariant(&*self);
        }
        let mut entries: Vec<(u64, u64)> = Vec::new();
        std::mem::swap(&mut entries, &mut self.entries);
        let ghost s0 = entries@;
        let n = entries.len();
        let mut i: usize = 0;
        while i < n
            invariant
                unique_keys(s0),
                entries@ == s0,
                n == s0.len(),
                i <= n,
                forall|j: int| 0 <= j < i ==> (#[trigger] s0[j]).0 != key,
            decreases n - i,
        {
            if entries[i].0 == key {
                entries.set(i, (key, value));
                proof {
                    lemma_pairs_to_map_update(s0, i as int, value);
                    assert((s0[i as int].0, value) == (key, value));
                    assert(entries@ == s0.update(i as int, (s0[i as int].0, value)));
                    assert(pairs_to_map(entries@) == pairs_to_map(s0).insert(key, value));
                }
                self.entries = entries;
                return;
            }
            i += 1;
        }
        entries.push((key, value));
        proof {
            assert(entries@.drop_last() =~= s0);
        }
        self.entries = entries;
    }

    /// Whether the trail has an entry for the operator.
    #[verifier::loop_isolation(false)]
    pub fn contains_key(&self, key: u64) -> (r: bool)
        ensures
            r == self@.contains_key(key),
    {
        proof {
            use_type_invariant(&*self);
            lemma_pairs_to_map_domain(self.entries@);
        }
        let n = self.entries.len();
        let mut i: usize = 0;
        while i < n
            invariant
                n == self.entries@.len(),
                i <= n,
                forall|j: int| 0 <= j < i ==> (#[trigger] self.entries@[j]).0 != key,
            decreases n - i,
        {
            if self.entries[i].0 == key {
                proof {
                    assert((#[trigger] self.entries@[i as int]).0 == key);
                }
                return true;
            }
            i += 1;
        }
        false
    }

    /// The value recorded for the operator, if any.
    #[verifier::loop_isolation(false)]
    pub fn get(&self, key: u64) -> (r: Option<u64>)
        ensures
            r == if self@.contains_key(key) {
                Some(self@[key])
            } else {
                None::<u64>
            },
    {
        proof {
            use_type_invariant(&*self);
            lemma_pairs_to_map_domain(self.entries@);
        }
        let n = self.entries.len();
        let mut i: usize = 0;
        while i < n
            invariant
                unique_keys(self.entries@),
                n == self.entries@.len(),
                i <= n,
                forall|j: int| 0 <= j < i ==> (#[trigger] self.entries@[j]).0 != key,
            decreases n - i,
        {
            if self.entries[i].0 == key {
                proof {
                    lemma_pairs_to_map_index(self.entries@, i as int);
                }
                return Some(self.entries[i].1);
            }
            i += 1;
        }
        proof {
            lemma_pairs_to_map_domain(self.entries@);
        }
        None
    }

    /// The number of operators in the trail.
    pub fn len(&self) -> (r: usize)
        ensures
            r == self@.dom().len(),
    {
        proof {
            use_type_invariant(&*self);
            lemma_pairs_to_map_len(self.entries@);
        }
        self.entries.len()
    }

    /// Whether the trail is empty.
    pub fn is_empty(&self) -> (r: bool)
        ensures
            r == (self@ == Map::<u64, u64>::empty()),
    {
        proof {
            use_type_invariant(&*self);
            lemma_pairs_to_map_len(self.entries@);
            if self.entries@.len() == 0 {
                assert(self@ =~= Map::<u64, u64>::empty());
            } else {
                lemma_pairs_to_map_index(self.entries@, 0);
            }
        }
        self.entries.len() == 0
    }

    /// Merges another trail into this one; on a duplicate key the other
    /// trail's value wins.
    #[verifier::loop_isolation(false)]
    pub fn merge(&mut self, other: OpMeta)
        ensures
            final(self)@ == old(self)@.union_prefer_right(other@),
    {
        proof {
            use_type_invariant(&*self);
            use_type_invariant(&other);
        }
        let ghost m0 = old(self)@;
        let ghost os = other.entries@;
        let n = other.entries.len();
        let mut i: usize = 0;
        proof {
            assert(m0.union_prefer_right(pairs_to_map(os.take(0))) =~= m0);
        }
        while i < n
            invariant
                unique_keys(os),
                other.entries@ == os,
                n == os.len(),
                i <= n,
                self@ == m0.union_prefer_right(pairs_to_map(os.take(i as int))),
            decreases n - i,
        {
            let (k, v) = other.entries[i];
            self.insert(k, v);
            proof {
                assert(os.take(i + 1).drop_last() =~= os.take(i as int));
                assert(os.take(i + 1).last() == os[i as int]);
                assert(self@ =~= m0.union_prefer_right(pairs_to_map(os.take(i + 1))));
            }
            i += 1;
        }
        proof {
            assert(os.take(n as int) =~= os);
        }
    }
}

impl Clone for OpMeta {
    /// A clone carries the same trail.
    #[verifier::loop_isolation(false)]
    fn clone(&self) -> (r: Self)
        ensures
            r@ == self@,
    {
        proof {
            use_type_invariant(&*self);
        }
        let n = self.entries.len();
        let mut entries: Vec<(u64, u64)> = Vec::new();
        let mut i: usize = 0;
        while i < n
            invariant
                n == self.entries@.len(),
                i <= n,
                entries@ == self.entries@.take(i as int),
            decreases n - i,
        {
            entries.push(self.entries[i]);
            proof {
                assert(entries@ =~= self.entries@.take(i + 1));
            }
            i += 1;
        }
        proof {
            assert(entries@ =~= self.entries@);
        }
        OpMeta { entries }
    }
}

impl Default for OpMeta {
    /// The default trail is empty.
    fn default() -> (r: Self)
        ensures
            r@ == Map::<u64, u64>::empty(),
    {
        OpMeta::new()
    }
}

proof fn lemma_pairs_to_map_update<V>(s: Seq<(u64, V)>, i: int, value: V)
    requires
        unique_keys(s),
        0 <= i < s.len(),
    ensures
        pairs_to_map(s.update(i, (s[i].0, value))) == pairs_to_map(s).insert(s[i].0, value),
    decreases s.len(),
{
    let k = s[i].0;
    let t = s.update(i, (k, value));
    if i == s.len() - 1 {
        assert(t.drop_last() =~= s.drop_last());
        assert(pairs_to_map(t) == pairs_to_map(s.drop_last()).insert(k, value));
        assert(pairs_to_map(s).insert(k, value) =~= pairs_to_map(s.drop_last()).insert(k, value));
    } else {
        assert(unique_keys(s.drop_last()));
        assert(s.drop_last()[i] == s[i]);
        lemma_pairs_to_map_update(s.drop_last(), i, value);
        assert(t.drop_last() =~= s.drop_last().update(i, (k, value)));
        assert(t.last() == s.last());
        assert(s.last().0 != k);
        assert(pairs_to_map(t) == pairs_to_map(s.drop_last()).insert(k, value).insert(
            s.last().0,
            s.last().1,
        ));
        assert(pairs_to_map(s.drop_last()).insert(k, value).insert(s.last().0, s.last().1)
            =~= pairs_to_map(s).insert(k, value));
    }
}

proof fn lemma_pairs_to_map_len<V>(s: Seq<(u64, V)>)
    requires
        unique_keys(s),
    ensures
        pairs_to_map(s).dom().len() == s.len(),
        pairs_to_map(s).dom().finite(),
    decreases s.len(),
{
    if s.len() == 0 {
    } else {
        assert(unique_keys(s.drop_last()));
        lemma_pairs_to_map_len(s.drop_last());
        lemma_pairs_to_map_domain(s.drop_last());
        assert(!pairs_to_map(s.drop_last()).dom().contains(s.last().0)) by {
            if pairs_to_map(s.drop_last()).dom().contains(s.last().0) {
                let i = choose|i: int|
                    0 <= i < s.drop_last().len() && (#[trigger] s.drop_last()[i]).0 == s.last().0;
                assert(s[i].0 == s[s.len() - 1].0);
            }
        }
        assert(pairs_to_map(s).dom() =~= pairs_to_map(s.drop_last()).dom().insert(s.last().0));
    }
}

} // verus!
