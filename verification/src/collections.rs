//! Small verified containers used by the bridge state: values compared by
//! their views, and an association list keyed by such values.
use vstd::prelude::*;

verus! {

/// Values that can be compared and copied by their views.
pub trait SameView: View + Sized {
    /// Whether `self` and `other` have the same view.
    fn same_as(&self, other: &Self) -> (r: bool)
        ensures
            r == (self@ == other@),
    ;

    /// A copy of `self` with the same view.
    fn duplicate(&self) -> (r: Self)
        ensures
            r@ == self@,
    ;
}

impl SameView for String {
    fn same_as(&self, other: &Self) -> (r: bool) {
        *self == *other
    }

    fn duplicate(&self) -> (r: Self) {
        self.clone()
    }
}

impl SameView for Vec<u8> {
    fn same_as(&self, other: &Self) -> (r: bool) {
        if self.len() != other.len() {
            return false;
        }
        let n = self.len();
        for i in 0..n
            invariant
                n == self@.len(),
                n == other@.len(),
                forall|j: int| 0 <= j < i ==> self@[j] == other@[j],
        {
            if self[i] != other[i] {
                return false;
            }
        }
        assert(self@ =~= other@);
        true
    }

    fn duplicate(&self) -> (r: Self) {
        let mut out: Vec<u8> = Vec::new();
        let n = self.len();
        for i in 0..n
            invariant
                n == self@.len(),
                out@ == self@.take(i as int),
        {
            out.push(self[i]);
            assert(self@.take(i as int).push(self@[i as int]) =~= self@.take(i + 1));
        }
        assert(self@.take(n as int) =~= self@);
        out
    }
}

impl<A: SameView, B: SameView> SameView for (A, B) {
    fn same_as(&self, other: &Self) -> (r: bool) {
        self.0.same_as(&other.0) && self.1.same_as(&other.1)
    }

    fn duplicate(&self) -> (r: Self) {
        (self.0.duplicate(), self.1.duplicate())
    }
}

/// A finite map from keys (compared by view) to values, kept as a list of
/// entries whose keys are pairwise distinct.
pub struct AssocList<K: SameView, V> {
    entries: Vec<(K, V)>,
}

impl<K: SameView, V> AssocList<K, V> {
    /// No two entries share a key.
    pub closed spec fn wf(self) -> bool {
        forall|i: int, j: int|
            0 <= i < self.entries@.len() && 0 <= j < self.entries@.len() && i != j
                ==> self.entries@[i].0@ != self.entries@[j].0@
    }

    /// The entry at `i` holds the key `k`.
    spec fn holds_key_at(self, k: K::V, i: int) -> bool {
        0 <= i < self.entries@.len() && self.entries@[i].0@ == k
    }

    /// The map from key views to values.
    pub closed spec fn as_map(self) -> Map<K::V, V> {
        Map::new(
            |k: K::V| exists|i: int| self.holds_key_at(k, i),
            |k: K::V| self.entries@[choose|i: int| self.holds_key_at(k, i)].1,
        )
    }

    proof fn lemma_entry(self, i: int)
        requires
            self.wf(),
            0 <= i < self.entries@.len(),
        ensures
            self.as_map().contains_key(self.entries@[i].0@),
            self.as_map()[self.entries@[i].0@] == self.entries@[i].1,
    {
        let k = self.entries@[i].0@;
        assert(self.holds_key_at(k, i));
        let j = choose|j: int| self.holds_key_at(k, j);
        assert(j == i);
    }

    /// An empty map.
    pub fn new() -> (r: Self)
        ensures
            r.wf(),
            r.as_map() == Map::<K::V, V>::empty(),
    {
        let r = AssocList { entries: Vec::new() };
        assert(r.as_map() =~= Map::<K::V, V>::empty());
        r
    }

    fn position(&self, key: &K) -> (r: Option<usize>)
        requires
            self.wf(),
        ensures
            match r {
                Some(i) => self.holds_key_at(key@, i as int),
                None => !self.as_map().contains_key(key@),
            },
    {
        let n = self.entries.len();
        for i in 0..n
            invariant
                n == self.entries@.len(),
                forall|j: int| 0 <= j < i ==> self.entries@[j].0@ != key@,
        {
            if self.entries[i].0.same_as(key) {
                return Some(i);
            }
        }
        None
    }

    /// Whether `key` has an entry.
    pub fn contains(&self, key: &K) -> (r: bool)
        requires
            self.wf(),
        ensures
            r == self.as_map().contains_key(key@),
    {
        match self.position(key) {
            Some(i) => {
                proof {
                    self.lemma_entry(i as int);
                }
                true
            },
            None => false,
        }
    }

    /// The value stored for `key`.
    pub fn get(&self, key: &K) -> (r: Option<&V>)
        requires
            self.wf(),
        ensures
            match r {
                Some(v) => self.as_map().contains_key(key@) && self.as_map()[key@] == *v,
                None => !self.as_map().contains_key(key@),
            },
    {
        match self.position(key) {
            Some(i) => {
                proof {
                    self.lemma_entry(i as int);
                }
                Some(&self.entries[i].1)
            },
            None => None,
        }
    }

    /// Removes the entry for `key`, returning its value.
    pub fn remove(&mut self, key: &K) -> (r: Option<V>)
        requires
            old(self).wf(),
        ensures
            final(self).wf(),
            final(self).as_map() == old(self).as_map().remove(key@),
            match r {
                Some(v) => old(self).as_map().contains_key(key@) && old(self).as_map()[key@] == v,
                None => !old(self).as_map().contains_key(key@),
            },
    {
        match self.position(key) {
            Some(i) => {
                let ghost before = *self;
                proof {
                    before.lemma_entry(i as int);
                }
                let (_k, v) = self.entries.swap_remove(i);
                proof {
                    let n = before.entries@.len();
                    let after = self.entries@;
                    // the entries after the removal are those before, with the
                    // last one moved into slot `i`
                    assert forall|a: int, b: int|
                        0 <= a < after.len() && 0 <= b < after.len() && a != b implies after[a].0@
                        != after[b].0@ by {
                        let oa = if a == i { n - 1 } else { a };
                        let ob = if b == i { n - 1 } else { b };
                        assert(after[a] == before.entries@[oa]);
                        assert(after[b] == before.entries@[ob]);
                    }
                    assert forall|k: K::V|
                        #![trigger self.as_map().contains_key(k)]
                        self.as_map().contains_key(k) == before.as_map().remove(key@).contains_key(k)
                        by {
                        if self.as_map().contains_key(k) {
                            let a = choose|a: int| self.holds_key_at(k, a);
                            let oa = if a == i { n - 1 } else { a };
                            assert(after[a] == before.entries@[oa]);
                            assert(before.holds_key_at(k, oa));
                        }
                        if before.as_map().remove(key@).contains_key(k) {
                            let b = choose|b: int| before.holds_key_at(k, b);
                            assert(b != i);
                            let nb = if b == n - 1 { i as int } else { b };
                            assert(after[nb] == before.entries@[b]);
                            assert(self.holds_key_at(k, nb));
                        }
                    }
                    assert forall|k: K::V|
                        #![trigger self.as_map()[k]]
                        self.as_map().contains_key(k) implies self.as_map()[k]
                        == before.as_map()[k] by {
                        let a = choose|a: int| self.holds_key_at(k, a);
                        let oa = if a == i { n - 1 } else { a };
                        assert(after[a] == before.entries@[oa]);
                        self.lemma_entry(a);
                        before.lemma_entry(oa);
                    }
                    assert(self.as_map() =~= before.as_map().remove(key@));
                }
                Some(v)
            },
            None => {
                assert(self.as_map() =~= old(self).as_map().remove(key@));
                None
            },
        }
    }

    /// Stores `value` for `key`, returning the value it replaces.
    pub fn insert(&mut self, key: K, value: V) -> (r: Option<V>)
        requires
            old(self).wf(),
        ensures
            final(self).wf(),
            final(self).as_map() == old(self).as_map().insert(key@, value),
            match r {
                Some(v) => old(self).as_map().contains_key(key@) && old(self).as_map()[key@] == v,
                None => !old(self).as_map().contains_key(key@),
            },
    {
        let ghost k = key@;
        let previous = self.remove(&key);
        let ghost before = *self;
        self.entries.push((key, value));
        proof {
            let n = before.entries@.len();
            assert(!before.as_map().contains_key(k));
            assert forall|a: int, b: int|
                0 <= a < self.entries@.len() && 0 <= b < self.entries@.len() && a != b
                    implies self.entries@[a].0@ != self.entries@[b].0@ by {
                if a == n {
                    assert(!before.holds_key_at(k, b));
                } else if b == n {
                    assert(!before.holds_key_at(k, a));
                }
            }
            assert forall|x: K::V|
                #![trigger self.as_map().contains_key(x)]
                self.as_map().contains_key(x) == before.as_map().insert(k, value).contains_key(x)
                by {
                if self.as_map().contains_key(x) {
                    let a = choose|a: int| self.holds_key_at(x, a);
                    if a < n {
                        assert(before.holds_key_at(x, a));
                    }
                }
                if before.as_map().contains_key(x) {
                    let b = choose|b: int| before.holds_key_at(x, b);
                    assert(self.holds_key_at(x, b));
                }
                if x == k {
                    assert(self.holds_key_at(x, n as int));
                }
            }
            assert forall|x: K::V|
                #![trigger self.as_map()[x]]
                self.as_map().contains_key(x) implies self.as_map()[x] == before.as_map().insert(
                    k,
                    value,
                )[x] by {
                let a = choose|a: int| self.holds_key_at(x, a);
                self.lemma_entry(a);
                if a < n {
                    before.lemma_entry(a);
                }
            }
            assert(self.as_map() =~= before.as_map().insert(k, value));
        }
        previous
    }
}

/// `values` lists the values of `m` in the order of `keys`, which names every
/// key of `m` exactly once.
pub open spec fn enumerated_by<K, V>(m: Map<K, V>, values: Seq<V>, keys: Seq<K>) -> bool {
    &&& keys.no_duplicates()
    &&& keys.len() == values.len()
    &&& forall|k: K| #[trigger] m.contains_key(k) <==> keys.contains(k)
    &&& forall|i: int| 0 <= i < keys.len() ==> values[i] == m[#[trigger] keys[i]]
}

/// `values` lists the values of `m`, one for each key.
pub open spec fn enumerates<K, V>(m: Map<K, V>, values: Seq<V>) -> bool {
    exists|keys: Seq<K>| enumerated_by(m, values, keys)
}

impl<K: SameView, V: Copy> AssocList<K, V> {
    /// Copies of the stored values, one for each key.
    pub fn copied_values(&self) -> (r: Vec<V>)
        requires
            self.wf(),
        ensures
            enumerates(self.as_map(), r@),
    {
        let mut out: Vec<V> = Vec::new();
        let n = self.entries.len();
        for i in 0..n
            invariant
                n == self.entries@.len(),
                self.wf(),
                out@.len() == i,
                forall|j: int| 0 <= j < i ==> out@[j] == self.entries@[j].1,
        {
            out.push(self.entries[i].1);
        }
        proof {
            let keys = self.entries@.map_values(|e: (K, V)| e.0@);
            assert forall|k: K::V| #[trigger] self.as_map().contains_key(k) <==> keys.contains(k) by {
                if self.as_map().contains_key(k) {
                    let a = choose|a: int| self.holds_key_at(k, a);
                    assert(keys[a] == k);
                }
                if keys.contains(k) {
                    let a = choose|a: int| 0 <= a < keys.len() && keys[a] == k;
                    assert(self.holds_key_at(k, a));
                }
            }
            assert forall|i: int| 0 <= i < keys.len() implies out@[i] == self.as_map()[
                #[trigger] keys[i]
            ] by {
                self.lemma_entry(i);
            }
            assert(keys.no_duplicates()) by {
                assert forall|i: int, j: int|
                    0 <= i < keys.len() && 0 <= j < keys.len() && i != j implies keys[i]
                    != keys[j] by {
                    assert(keys[i] == self.entries@[i].0@);
                    assert(keys[j] == self.entries@[j].0@);
                }
            }
            assert(enumerated_by(self.as_map(), out@, keys));
        }
        out
    }
}

impl<K: SameView, V> View for AssocList<K, V> {
    type V = Map<K::V, V>;

    open spec fn view(&self) -> Map<K::V, V> {
        self.as_map()
    }
}

} // verus!
