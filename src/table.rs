use vstd::prelude::*;

use crate::types::Address;

verus! {

/// Keys of a [`Table`], compared by value.
pub trait TableKey: Copy {
    fn same(&self, other: &Self) -> (r: bool)
        ensures
            r == (*self == *other),
    ;
}

impl TableKey for Address {
    fn same(&self, other: &Self) -> (r: bool) {
        *self == *other
    }
}

/// A finite map kept as a list of entries whose keys are pairwise distinct.
///
/// The entries keep their order of first insertion, which the ledgers use to
/// list entities in registration order, and the list gives the sum of stored
/// amounts by induction over it. Keys are composite (a beneficiary and a
/// program) as well as plain addresses; std's hash maps are specified only
/// for integer keys and give neither an order nor a sum.
#[verifier::reject_recursive_types(K)]
pub struct Table<K, V> {
    entries: Vec<(K, V)>,
    map: Ghost<Map<K, V>>,
}

/// Sum of the amounts of a list of entries.
pub open spec fn sum_amounts<K>(s: Seq<(K, i128)>) -> int
    decreases s.len(),
{
    if s.len() == 0 {
        0
    } else {
        sum_amounts(s.drop_last()) + s.last().1
    }
}

proof fn lemma_sum_update<K>(s: Seq<(K, i128)>, i: int, e: (K, i128))
    requires
        0 <= i < s.len(),
    ensures
        sum_amounts(s.update(i, e)) == sum_amounts(s) - s[i].1 + e.1,
    decreases s.len(),
{
    let t = s.update(i, e);
    if i == s.len() - 1 {
        assert(t.drop_last() =~= s.drop_last());
    } else {
        assert(t.drop_last() =~= s.drop_last().update(i, e));
        lemma_sum_update(s.drop_last(), i, e);
    }
}

proof fn lemma_sum_bounds_entry<K>(s: Seq<(K, i128)>, i: int)
    requires
        0 <= i < s.len(),
        forall|j: int| 0 <= j < s.len() ==> s[j].1 >= 0,
    ensures
        s[i].1 <= sum_amounts(s),
        sum_amounts(s) >= 0,
    decreases s.len(),
{
    let t = s.drop_last();
    assert(s.last() == s[s.len() - 1]);
    assert(s[s.len() - 1].1 >= 0);
    if s.len() > 1 {
        assert forall|j: int| 0 <= j < t.len() implies t[j].1 >= 0 by {
            assert(t[j] == s[j]);
        }
        if i < s.len() - 1 {
            lemma_sum_bounds_entry(t, i);
            assert(t[i] == s[i]);
        } else {
            lemma_sum_bounds_entry(t, 0);
        }
    } else {
        assert(sum_amounts(t) == 0);
    }
}

impl<K, V> View for Table<K, V> {
    type V = Map<K, V>;

    closed spec fn view(&self) -> Map<K, V> {
        self.map@
    }
}

impl<K: TableKey, V> Table<K, V> {
    /// The entries in order of first insertion.
    pub closed spec fn entries(&self) -> Seq<(K, V)> {
        self.entries@
    }

    pub closed spec fn wf(&self) -> bool {
        &&& forall|i: int, j: int|
            0 <= i < j < self.entries@.len() ==> #[trigger] self.entries@[i].0
                != #[trigger] self.entries@[j].0
        &&& forall|i: int|
            0 <= i < self.entries@.len() ==> #[trigger] self.map@.contains_key(self.entries@[i].0)
                && self.map@[self.entries@[i].0] == self.entries@[i].1
        &&& forall|k: K| #[trigger]
            self.map@.contains_key(k) ==> exists|i: int|
                0 <= i < self.entries@.len() && self.entries@[i].0 == k
    }

    pub fn new() -> (r: Self)
        ensures
            r.wf(),
            r@ == Map::<K, V>::empty(),
    {
        Table { entries: Vec::new(), map: Ghost(Map::empty()) }
    }

    /// Number of keys.
    pub fn len(&self) -> (r: usize)
        requires
            self.wf(),
        ensures
            r == self@.len(),
            r == self.entries().len(),
            self@.dom().finite(),
    {
        proof {
            self.lemma_dom_is_keys();
        }
        self.entries.len()
    }

    proof fn lemma_dom_is_keys(&self)
        requires
            self.wf(),
        ensures
            self@.dom() == self.entries@.map_values(|e: (K, V)| e.0).to_set(),
            self@.dom().finite(),
            self@.len() == self.entries@.len(),
    {
        let keys = self.entries@.map_values(|e: (K, V)| e.0);
        assert forall|k: K| self@.dom().contains(k) <==> keys.to_set().contains(k) by {
            if self@.dom().contains(k) {
                let i = choose|i: int| 0 <= i < self.entries@.len() && self.entries@[i].0 == k;
                assert(keys[i] == k);
            }
            if keys.to_set().contains(k) {
                let i = choose|i: int| 0 <= i < keys.len() && keys[i] == k;
                assert(self.entries@[i].0 == k);
            }
        }
        assert(self@.dom() =~= keys.to_set());
        assert(keys.no_duplicates()) by {
            assert forall|i: int, j: int| 0 <= i < keys.len() && 0 <= j < keys.len() && i != j
                implies keys[i] != keys[j] by {
                if i < j {
                    assert(self.entries@[i].0 != self.entries@[j].0);
                } else {
                    assert(self.entries@[j].0 != self.entries@[i].0);
                }
            }
        }
        keys.unique_seq_to_set();
    }

    /// The key of the entry at position `i`.
    pub fn key_at(&self, i: usize) -> (r: K)
        requires
            i < self.entries().len(),
        ensures
            r == self.entries()[i as int].0,
    {
        self.entries[i].0
    }

    /// The value of the entry at position `i`.
    pub fn value_at(&self, i: usize) -> (r: &V)
        requires
            i < self.entries().len(),
        ensures
            *r == self.entries()[i as int].1,
    {
        &self.entries[i].1
    }

    /// A well-formed table holds finitely many keys, one per entry.
    pub proof fn lemma_finite(&self)
        requires
            self.wf(),
        ensures
            self@.dom().finite(),
            self@.len() == self.entries().len(),
    {
        self.lemma_dom_is_keys();
    }

    /// Position of `k` among the entries.
    fn find(&self, k: &K) -> (r: Option<usize>)
        requires
            self.wf(),
        ensures
            match r {
                Some(i) => i < self.entries@.len() && self.entries@[i as int].0 == *k,
                None => !self@.contains_key(*k),
            },
    {
        let mut i: usize = 0;
        while i < self.entries.len()
            invariant
                0 <= i <= self.entries@.len(),
                forall|j: int| 0 <= j < i ==> #[trigger] self.entries@[j].0 != *k,
            decreases self.entries@.len() - i,
        {
            if self.entries[i].0.same(k) {
                return Some(i);
            }
            i = i + 1;
        }
        None
    }

    /// The value stored under `k`, if any.
    pub fn get(&self, k: &K) -> (r: Option<&V>)
        requires
            self.wf(),
        ensures
            r.is_some() == self@.contains_key(*k),
            r.is_some() ==> *r.unwrap() == self@[*k],
    {
        match self.find(k) {
            Some(i) => {
                proof {
                    assert(self.map@.contains_key(self.entries@[i as int].0));
                }
                Some(&self.entries[i].1)
            },
            None => None,
        }
    }

    /// Stores `v` under `k`, replacing any earlier value. A new key goes at
    /// the end of the entries.
    pub fn insert(&mut self, k: K, v: V)
        requires
            old(self).wf(),
        ensures
            final(self).wf(),
            final(self)@ == old(self)@.insert(k, v),
            old(self)@.contains_key(k) ==> exists|i: int|
                0 <= i < old(self).entries().len() && old(self).entries()[i].0 == k
                    && final(self).entries() == old(self).entries().update(i, (k, v)),
            !old(self)@.contains_key(k) ==> final(self).entries() == old(self).entries().push(
                (k, v),
            ),
    {
        match self.find(&k) {
            Some(i) => {
                proof {
                    assert(self.map@.contains_key(self.entries@[i as int].0));
                }
                self.entries[i] = (k, v);
                self.map = Ghost(self.map@.insert(k, v));
                proof {
                    assert(self.entries@[i as int] == (k, v));
                    assert forall|j: int| 0 <= j < self.entries@.len() && j != i implies
                        #[trigger] self.entries@[j] == old(self).entries@[j] by {}
                    assert forall|j: int| 0 <= j < self.entries@.len() implies
                        #[trigger] self.entries@[j].0 == old(self).entries@[j].0 by {}
                    assert(self.entries@ =~= old(self).entries@.update(i as int, (k, v)));
                    assert forall|a: int, b: int| 0 <= a < b < self.entries@.len() implies
                        #[trigger] self.entries@[a].0 != #[trigger] self.entries@[b].0 by {
                        assert(self.entries@[a].0 == old(self).entries@[a].0);
                        assert(self.entries@[b].0 == old(self).entries@[b].0);
                    }
                    assert forall|j: int| 0 <= j < self.entries@.len() implies #[trigger]
                        self.map@.contains_key(self.entries@[j].0) && self.map@[self.entries@[j].0]
                            == self.entries@[j].1 by {
                        if j != i {
                            assert(self.entries@[j] == old(self).entries@[j]);
                            assert(old(self).map@.contains_key(old(self).entries@[j].0));
                            assert(old(self).entries@[j].0 != k) by {
                                if j < i {
                                    assert(old(self).entries@[j].0 != old(self).entries@[i as int].0);
                                } else {
                                    assert(old(self).entries@[i as int].0 != old(self).entries@[j].0);
                                }
                            }
                        }
                    }
                    assert forall|kk: K| #[trigger]
                        self.map@.contains_key(kk) implies exists|j: int|
                            0 <= j < self.entries@.len() && self.entries@[j].0 == kk by {
                        if kk == k {
                            assert(self.entries@[i as int].0 == k);
                        } else {
                            let j = choose|j: int|
                                0 <= j < old(self).entries@.len() && old(self).entries@[j].0 == kk;
                            assert(self.entries@[j].0 == kk);
                        }
                    }
                    assert(old(self).entries()[i as int].0 == k);
                    assert(self.entries() == old(self).entries().update(i as int, (k, v)));
                }
            },
            None => {
                proof {
                    assert forall|j: int| 0 <= j < self.entries@.len() implies #[trigger]
                        self.entries@[j].0 != k by {
                        assert(self.map@.contains_key(self.entries@[j].0));
                    }
                }
                self.entries.push((k, v));
                self.map = Ghost(self.map@.insert(k, v));
                proof {
                    let n = old(self).entries@.len();
                    assert(self.entries@[n as int].0 == k);
                    assert forall|j: int| 0 <= j < self.entries@.len() implies #[trigger]
                        self.map@.contains_key(self.entries@[j].0) && self.map@[self.entries@[j].0]
                            == self.entries@[j].1 by {
                        if j < n {
                            assert(self.entries@[j] == old(self).entries@[j]);
                            assert(old(self).entries@[j].0 != k);
                        }
                    }
                    assert forall|kk: K| #[trigger]
                        self.map@.contains_key(kk) implies exists|j: int|
                            0 <= j < self.entries@.len() && self.entries@[j].0 == kk by {
                        if kk == k {
                            assert(self.entries@[n as int].0 == k);
                        } else {
                            let j = choose|j: int|
                                0 <= j < old(self).entries@.len() && old(self).entries@[j].0 == kk;
                            assert(self.entries@[j] == old(self).entries@[j]);
                        }
                    }
                }
            },
        }
    }
}

impl<K: TableKey> Table<K, i128> {
    /// The amount stored under `k`, zero where none is.
    pub open spec fn amount(&self, k: K) -> int {
        if self@.contains_key(k) {
            self@[k] as int
        } else {
            0
        }
    }

    /// Every stored amount is non-negative.
    pub open spec fn all_nonneg(&self) -> bool {
        forall|k: K| #[trigger] self@.contains_key(k) ==> self@[k] >= 0
    }

    /// The sum of all stored amounts.
    pub closed spec fn total(&self) -> int {
        sum_amounts(self.entries@)
    }

    pub proof fn lemma_new_total(&self)
        requires
            self.wf(),
            self@ == Map::<K, i128>::empty(),
        ensures
            self.total() == 0,
    {
        if self.entries@.len() > 0 {
            assert(self.map@.contains_key(self.entries@[0].0));
        }
    }

    /// A non-negative amount never exceeds the total of non-negative amounts.
    pub proof fn lemma_amount_le_total(&self, k: K)
        requires
            self.wf(),
            self.all_nonneg(),
        ensures
            0 <= self.amount(k) <= self.total(),
    {
        assert forall|j: int| 0 <= j < self.entries@.len() implies #[trigger]
            self.entries@[j].1 >= 0 by {
            assert(self@.contains_key(self.entries@[j].0));
        }
        if self@.contains_key(k) {
            let i = choose|i: int| 0 <= i < self.entries@.len() && self.entries@[i].0 == k;
            lemma_sum_bounds_entry(self.entries@, i);
        } else if self.entries@.len() > 0 {
            lemma_sum_bounds_entry(self.entries@, 0);
        }
    }

    /// The amount stored under `k`, zero where none is.
    pub fn amount_of(&self, k: &K) -> (r: i128)
        requires
            self.wf(),
        ensures
            r == self.amount(*k),
    {
        match self.get(k) {
            Some(v) => *v,
            None => 0,
        }
    }

    /// Stores amount `v` under `k`; the total moves by the difference.
    pub fn set_amount(&mut self, k: K, v: i128)
        requires
            old(self).wf(),
        ensures
            final(self).wf(),
            final(self)@ == old(self)@.insert(k, v),
            final(self).total() == old(self).total() - old(self).amount(k) + v,
    {
        let ghost before = *self;
        self.insert(k, v);
        proof {
            if before@.contains_key(k) {
                let i = choose|i: int|
                    0 <= i < before.entries().len() && before.entries()[i].0 == k
                        && self.entries() == before.entries().update(i, (k, v));
                assert(before.map@.contains_key(before.entries@[i].0));
                lemma_sum_update(before.entries@, i, (k, v));
            } else {
                assert(self.entries@.drop_last() =~= before.entries@);
            }
        }
    }
}

} // verus!
