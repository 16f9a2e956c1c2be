//! A keyed storage table: an association list with distinct keys, viewed
//! as a finite `Map`. Every storage map of the pallets is one of these.
use vstd::prelude::*;

verus! {

/// Keys whose equality can be decided by executable code.
pub trait TableKey: Sized {
    fn same(&self, other: &Self) -> (r: bool)
        ensures
            r == (*self == *other),
    ;
}

impl TableKey for u64 {
    fn same(&self, other: &Self) -> (r: bool) {
        *self == *other
    }
}

/// Byte-wise equality of two 32-byte identifiers.
pub fn bytes32_eq(a: &[u8; 32], b: &[u8; 32]) -> (r: bool)
    ensures
        r == (*a == *b),
{
    let mut i: usize = 0;
    while i < 32
        invariant
            0 <= i <= 32,
            forall|j: int| 0 <= j < i ==> a[j] == b[j],
        decreases 32 - i,
    {
        if a[i] != b[i] {
            return false;
        }
        i = i + 1;
    }
    proof {
        broadcast use vstd::array::group_array_axioms;

        assert(*a =~= *b);
    }
    true
}

impl TableKey for [u8; 32] {
    fn same(&self, other: &Self) -> (r: bool) {
        bytes32_eq(self, other)
    }
}

impl TableKey for ([u8; 32], [u8; 32]) {
    fn same(&self, other: &Self) -> (r: bool) {
        bytes32_eq(&self.0, &other.0) && bytes32_eq(&self.1, &other.1)
    }
}

/// Association list with pairwise-distinct keys.
#[derive(Clone, Debug, PartialEq, Eq)]
pub struct Table<K, V> {
    entries: Vec<(K, V)>,
}

impl<K: TableKey, V> Table<K, V> {
    pub closed spec fn has(&self, k: K) -> bool {
        exists|i: int| 0 <= i < self.entries@.len() && #[trigger] self.entries@[i].0 == k
    }

    pub closed spec fn slot(&self, k: K) -> int {
        choose|i: int| 0 <= i < self.entries@.len() && #[trigger] self.entries@[i].0 == k
    }

    /// The table's contents as a finite map.
    pub closed spec fn view(&self) -> Map<K, V> {
        Map::new(|k: K| self.has(k), |k: K| self.entries@[self.slot(k)].1)
    }

    /// Keys are pairwise distinct.
    pub closed spec fn wf(&self) -> bool {
        forall|i: int, j: int|
            0 <= i < self.entries@.len() && 0 <= j < self.entries@.len() && i != j
                ==> #[trigger] self.entries@[i].0 != #[trigger] self.entries@[j].0
    }

    pub closed spec fn key_seq(&self) -> Seq<K> {
        self.entries@.map_values(|e: (K, V)| e.0)
    }

    /// The domain of a table is finite.
    pub proof fn lemma_dom_finite(&self)
        ensures
            self@.dom().finite(),
    {
        broadcast use vstd::seq_lib::seq_to_set_is_finite;

        let s = self.key_seq().to_set();
        assert(self@.dom() =~= s) by {
            assert forall|k: K| self@.dom().contains(k) implies s.contains(k) by {
                let i = self.slot(k);
                assert(self.key_seq()[i] == k);
            }
            assert forall|k: K| s.contains(k) implies self@.dom().contains(k) by {
                let i = choose|i: int| 0 <= i < self.key_seq().len() && self.key_seq()[i] == k;
                assert(self.entries@[i].0 == k);
            }
        }
    }

    proof fn lemma_slot(&self, i: int)
        requires
            self.wf(),
            0 <= i < self.entries@.len(),
        ensures
            self@.contains_key(self.entries@[i].0),
            self@[self.entries@[i].0] == self.entries@[i].1,
            self.slot(self.entries@[i].0) == i,
    {
        let k = self.entries@[i].0;
        assert(self.has(k));
    }

    pub fn new() -> (t: Self)
        ensures
            t.wf(),
            t@ == Map::<K, V>::empty(),
    {
        let t = Table { entries: Vec::new() };
        assert(t@ =~= Map::<K, V>::empty());
        t
    }

    fn find(&self, k: &K) -> (r: Option<usize>)
        requires
            self.wf(),
        ensures
            match r {
                Some(i) => i < self.entries@.len() && self.entries@[i as int].0 == *k,
                None => !self@.contains_key(*k),
            },
    {
        let mut i: usize = 0;
        while i < self.entries.len()
            invariant
                0 <= i <= self.entries@.len(),
                forall|j: int| 0 <= j < i ==> self.entries@[j].0 != *k,
            decreases self.entries@.len() - i,
        {
            if self.entries[i].0.same(k) {
                return Some(i);
            }
            i = i + 1;
        }
        None
    }

    pub fn contains_key(&self, k: &K) -> (r: bool)
        requires
            self.wf(),
        ensures
            r == self@.contains_key(*k),
    {
        match self.find(k) {
            Some(i) => {
                proof {
                    self.lemma_slot(i as int);
                }
                true
            },
            None => false,
        }
    }

    pub fn get(&self, k: &K) -> (r: Option<&V>)
        requires
            self.wf(),
        ensures
            match r {
                Some(v) => self@.contains_key(*k) && *v == self@[*k],
                None => !self@.contains_key(*k),
            },
    {
        match self.find(k) {
            Some(i) => {
                proof {
                    self.lemma_slot(i as int);
                }
                Some(&self.entries[i].1)
            },
            None => None,
        }
    }

    pub fn insert(&mut self, k: K, v: V)
        requires
            old(self).wf(),
        ensures
            final(self).wf(),
            final(self)@ == old(self)@.insert(k, v),
    {
        let ghost pre = self.entries@;
        match self.find(&k) {
            Some(i) => {
                let _old = self.entries.remove(i);
                self.entries.insert(i, (k, v));
                assert(self.entries@ =~= pre.update(i as int, (k, v)));
                proof {
                    assert forall|a: int, b: int|
                        0 <= a < self.entries@.len() && 0 <= b < self.entries@.len() && a != b
                            implies #[trigger] self.entries@[a].0 != #[trigger] self.entries@[b].0 by {
                        assert(pre[a].0 != pre[b].0);
                    }
                    assert forall|key: K| #[trigger] self@.contains_key(key) == old(self)@.insert(k, v).contains_key(key) by {
                        if old(self)@.contains_key(key) {
                            let j = old(self).slot(key);
                            assert(self.entries@[j].0 == key);
                        }
                        if self@.contains_key(key) {
                            let j = self.slot(key);
                            if j != i {
                                assert(pre[j].0 == key);
                            }
                        }
                    }
                    assert forall|key: K| #[trigger] self@.contains_key(key) implies self@[key] == old(self)@.insert(k, v)[key] by {
                        let j = self.slot(key);
                        if key == k {
                            self.lemma_slot(i as int);
                        } else {
                            assert(pre[j].0 == key);
                            old(self).lemma_slot(j);
                        }
                    }
                    assert(self@ =~= old(self)@.insert(k, v));
                }
            },
            None => {
                self.entries.push((k, v));
                proof {
                    let n = pre.len() as int;
                    assert(self.entries@[n].0 == k);
                    assert forall|a: int, b: int|
                        0 <= a < self.entries@.len() && 0 <= b < self.entries@.len() && a != b
                            implies #[trigger] self.entries@[a].0 != #[trigger] self.entries@[b].0 by {
                        if a < n && b < n {
                            assert(pre[a].0 != pre[b].0);
                        } else if a == n {
                            assert(pre[b].0 != k) by {
                                if pre[b].0 == k {
                                    assert(old(self).has(k));
                                }
                            }
                        } else {
                            assert(pre[a].0 != k) by {
                                if pre[a].0 == k {
                                    assert(old(self).has(k));
                                }
                            }
                        }
                    }
                    assert forall|key: K| #[trigger] self@.contains_key(key) == old(self)@.insert(k, v).contains_key(key) by {
                        if old(self)@.contains_key(key) {
                            let j = old(self).slot(key);
                            assert(self.entries@[j].0 == key);
                        }
                        if self@.contains_key(key) {
                            let j = self.slot(key);
                            if j != n {
                                assert(pre[j].0 == key);
                            }
                        }
                    }
                    assert forall|key: K| #[trigger] self@.contains_key(key) implies self@[key] == old(self)@.insert(k, v)[key] by {
                        let j = self.slot(key);
                        if key == k {
                            self.lemma_slot(n);
                        } else {
                            self.lemma_slot(j);
                            assert(j != n);
                            assert(pre[j].0 == key);
                            old(self).lemma_slot(j);
                        }
                    }
                    assert(self@ =~= old(self)@.insert(k, v));
                }
            },
        }
    }

    pub fn remove(&mut self, k: &K) -> (r: Option<V>)
        requires
            old(self).wf(),
        ensures
            final(self).wf(),
            final(self)@ == old(self)@.remove(*k),
            match r {
                Some(v) => old(self)@.contains_key(*k) && v == old(self)@[*k],
                None => !old(self)@.contains_key(*k),
            },
    {
        let ghost pre = self.entries@;
        match self.find(k) {
            Some(i) => {
                proof {
                    old(self).lemma_slot(i as int);
                }
                let e = self.entries.remove(i);
                proof {
                    let post = self.entries@;
                    assert(post =~= pre.remove(i as int));
                    assert forall|a: int| 0 <= a < post.len() implies #[trigger] post[a] == pre[if a < i { a } else { a + 1 }] by {}
                    assert forall|a: int, b: int|
                        0 <= a < post.len() && 0 <= b < post.len() && a != b
                            implies #[trigger] post[a].0 != #[trigger] post[b].0 by {
                        let a2 = if a < i { a } else { a + 1 };
                        let b2 = if b < i { b } else { b + 1 };
                        assert(post[a] == pre[a2]);
                        assert(post[b] == pre[b2]);
                        assert(pre[a2].0 != pre[b2].0);
                    }
                    assert forall|key: K| #[trigger] self@.contains_key(key) == old(self)@.remove(*k).contains_key(key) by {
                        if old(self)@.contains_key(key) && key != *k {
                            let j = old(self).slot(key);
                            assert(j != i);
                            let j2 = if j < i { j } else { j - 1 };
                            assert(post[j2] == pre[j]);
                        }
                        if self@.contains_key(key) {
                            let j = self.slot(key);
                            let j2 = if j < i { j } else { j + 1 };
                            assert(post[j] == pre[j2]);
                            assert(old(self).has(key));
                            assert(j2 != i);
                        }
                    }
                    assert forall|key: K| #[trigger] self@.contains_key(key) implies self@[key] == old(self)@.remove(*k)[key] by {
                        let j = self.slot(key);
                        self.lemma_slot(j);
                        let j2 = if j < i { j } else { j + 1 };
                        assert(post[j] == pre[j2]);
                        old(self).lemma_slot(j2);
                    }
                    assert(self@ =~= old(self)@.remove(*k));
                }
                Some(e.1)
            },
            None => {
                proof {
                    assert(self@ =~= old(self)@.remove(*k));
                }
                None
            },
        }
    }
}

} // verus!
