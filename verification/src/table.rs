use vstd::prelude::*;

use crate::ids::{NamespaceId, SurfaceId, XResourceId};

verus! {

/// A condition on table entries, decidable at run time.
pub trait XEntryPredicate<K, V> {
    spec fn holds(&self, k: K, v: V) -> bool;

    fn test(&self, k: &K, v: &V) -> (r: bool)
        ensures
            r == self.holds(*k, *v),
    ;
}

/// A key a table orders its entries by: a strict total order, decidable at
/// run time, and an exact equality.
pub trait XTableKey: Copy + Sized {
    spec fn key_lt(self, other: Self) -> bool;

    proof fn lemma_key_order(a: Self, b: Self, c: Self)
        ensures
            !a.key_lt(a),
            a.key_lt(b) && b.key_lt(c) ==> a.key_lt(c),
            a.key_lt(b) || b.key_lt(a) || a == b,
    ;

    fn key_less(&self, other: &Self) -> (r: bool)
        ensures
            r == self.key_lt(*other),
    ;

    fn key_equal(&self, other: &Self) -> (r: bool)
        ensures
            r == (*self == *other),
    ;
}

impl XTableKey for u32 {
    open spec fn key_lt(self, other: Self) -> bool {
        self < other
    }

    proof fn lemma_key_order(a: Self, b: Self, c: Self) {
    }

    fn key_less(&self, other: &Self) -> (r: bool) {
        *self < *other
    }

    fn key_equal(&self, other: &Self) -> (r: bool) {
        *self == *other
    }
}

impl XTableKey for u64 {
    open spec fn key_lt(self, other: Self) -> bool {
        self < other
    }

    proof fn lemma_key_order(a: Self, b: Self, c: Self) {
    }

    fn key_less(&self, other: &Self) -> (r: bool) {
        *self < *other
    }

    fn key_equal(&self, other: &Self) -> (r: bool) {
        *self == *other
    }
}

impl XTableKey for NamespaceId {
    open spec fn key_lt(self, other: Self) -> bool {
        self.raw < other.raw
    }

    proof fn lemma_key_order(a: Self, b: Self, c: Self) {
    }

    fn key_less(&self, other: &Self) -> (r: bool) {
        self.raw < other.raw
    }

    fn key_equal(&self, other: &Self) -> (r: bool) {
        self.raw == other.raw
    }
}

impl XTableKey for SurfaceId {
    open spec fn key_lt(self, other: Self) -> bool {
        self.raw < other.raw
    }

    proof fn lemma_key_order(a: Self, b: Self, c: Self) {
    }

    fn key_less(&self, other: &Self) -> (r: bool) {
        self.raw < other.raw
    }

    fn key_equal(&self, other: &Self) -> (r: bool) {
        self.raw == other.raw
    }
}

impl XTableKey for XResourceId {
    /// Ordered by the client's id first, then by incarnation.
    open spec fn key_lt(self, other: Self) -> bool {
        self.local < other.local || (self.local == other.local && self.generation
            < other.generation)
    }

    proof fn lemma_key_order(a: Self, b: Self, c: Self) {
    }

    fn key_less(&self, other: &Self) -> (r: bool) {
        self.local < other.local || (self.local == other.local && self.generation
            < other.generation)
    }

    fn key_equal(&self, other: &Self) -> (r: bool) {
        self.local == other.local && self.generation == other.generation
    }
}

/// A finite map kept as entries in strictly increasing key order, so that
/// walking it visits keys in order.
pub struct XTable<K, V> {
    pub entries: Vec<(K, V)>,
}

impl<K: XTableKey, V> XTable<K, V> {
    /// Entries are strictly increasing by key.
    pub open spec fn wf(&self) -> bool {
        forall|i: int, j: int|
            #![trigger self.entries@[i], self.entries@[j]]
            0 <= i < j < self.entries@.len() ==> self.entries@[i].0.key_lt(self.entries@[j].0)
    }

    pub open spec fn has_key(&self, k: K) -> bool {
        exists|i: int| 0 <= i < self.entries@.len() && #[trigger] self.entries@[i].0 == k
    }

    pub open spec fn index_of(&self, k: K) -> int {
        choose|i: int| 0 <= i < self.entries@.len() && #[trigger] self.entries@[i].0 == k
    }

    /// The keys, in the order the table holds them.
    pub open spec fn keys_seq(&self) -> Seq<K> {
        self.entries@.map_values(|e: (K, V)| e.0)
    }

    pub open spec fn view(&self) -> Map<K, V> {
        Map::new(|k: K| self.has_key(k), |k: K| self.entries@[self.index_of(k)].1)
    }

    pub proof fn lemma_keys_distinct(&self, i: int, j: int)
        requires
            self.wf(),
            0 <= i < self.entries@.len(),
            0 <= j < self.entries@.len(),
            i != j,
        ensures
            self.entries@[i].0 != self.entries@[j].0,
    {
        K::lemma_key_order(self.entries@[i].0, self.entries@[j].0, self.entries@[j].0);
        K::lemma_key_order(self.entries@[j].0, self.entries@[i].0, self.entries@[i].0);
        if i < j {
            assert(self.entries@[i].0.key_lt(self.entries@[j].0));
        } else {
            assert(self.entries@[j].0.key_lt(self.entries@[i].0));
        }
    }

    /// An index holding a key is the one the view reads.
    pub proof fn lemma_index(&self, i: int)
        requires
            self.wf(),
            0 <= i < self.entries@.len(),
        ensures
            self.view().contains_key(self.entries@[i].0),
            self.index_of(self.entries@[i].0) == i,
            self.view()[self.entries@[i].0] == self.entries@[i].1,
    {
        let k = self.entries@[i].0;
        assert(self.has_key(k));
        let j = self.index_of(k);
        if j != i {
            self.lemma_keys_distinct(i, j);
        }
    }

    pub fn new() -> (r: Self)
        ensures
            r.wf(),
            r.entries@.len() == 0,
            r.view() == Map::<K, V>::empty(),
    {
        let r = XTable { entries: Vec::new() };
        assert(r.view() =~= Map::<K, V>::empty());
        r
    }

    /// The position of `k`, if the table holds it.
    pub fn find(&self, k: &K) -> (r: Option<usize>)
        requires
            self.wf(),
        ensures
            match r {
                Some(i) => i < self.entries@.len() && self.entries@[i as int].0 == *k,
                None => !self.view().contains_key(*k),
            },
            r is Some <==> self.view().contains_key(*k),
    {
        let mut i: usize = 0;
        while i < self.entries.len()
            invariant
                self.wf(),
                i <= self.entries@.len(),
                forall|j: int| 0 <= j < i ==> #[trigger] self.entries@[j].0 != *k,
            decreases self.entries@.len() - i,
        {
            if self.entries[i].0.key_equal(k) {
                proof {
                    self.lemma_index(i as int);
                }
                return Some(i);
            }
            i = i + 1;
        }
        None
    }

    pub fn contains_key(&self, k: &K) -> (r: bool)
        requires
            self.wf(),
        ensures
            r == self.view().contains_key(*k),
    {
        self.find(k).is_some()
    }

    pub fn get(&self, k: &K) -> (r: Option<&V>)
        requires
            self.wf(),
        ensures
            match r {
                Some(v) => self.view().contains_key(*k) && *v == self.view()[*k],
                None => !self.view().contains_key(*k),
            },
    {
        match self.find(k) {
            Some(i) => {
                proof {
                    self.lemma_index(i as int);
                }
                Some(&self.entries[i].1)
            },
            None => None,
        }
    }

    /// The position a new key goes to keep the order.
    fn insertion_point(&self, k: &K) -> (r: usize)
        requires
            self.wf(),
            !self.view().contains_key(*k),
        ensures
            r <= self.entries@.len(),
            forall|j: int| 0 <= j < r ==> (#[trigger] self.entries@[j]).0.key_lt(*k),
            forall|j: int| r <= j < self.entries@.len() ==> k.key_lt(
                (#[trigger] self.entries@[j]).0,
            ),
    {
        let mut i: usize = 0;
        while i < self.entries.len()
            invariant
                self.wf(),
                !self.view().contains_key(*k),
                i <= self.entries@.len(),
                forall|j: int| 0 <= j < i ==> (#[trigger] self.entries@[j]).0.key_lt(*k),
            decreases self.entries@.len() - i,
        {
            if k.key_less(&self.entries[i].0) {
                assert forall|j: int| i <= j < self.entries@.len() implies k.key_lt(
                    (#[trigger] self.entries@[j]).0,
                ) by {
                    if j > i {
                        K::lemma_key_order(*k, self.entries@[i as int].0, self.entries@[j].0);
                    }
                }
                return i;
            }
            proof {
                K::lemma_key_order(*k, self.entries@[i as int].0, self.entries@[i as int].0);
                if self.entries@[i as int].0 == *k {
                    self.lemma_index(i as int);
                }
            }
            i = i + 1;
        }
        i
    }

    /// Sets the value under `k`, adding the key if it is new.
    pub fn insert(&mut self, k: K, v: V)
        requires
            old(self).wf(),
        ensures
            final(self).wf(),
            final(self).view() == old(self).view().insert(k, v),
    {
        let ghost pre = self.view();
        match self.find(&k) {
            Some(i) => {
                self.entries.set(i, (k, v));
                proof {
                    assert(self.wf()) by {
                        assert forall|a: int, b: int|
                            #![trigger self.entries@[a], self.entries@[b]]
                            0 <= a < b < self.entries@.len() implies self.entries@[a].0.key_lt(
                            self.entries@[b].0,
                        ) by {
                            assert(old(self).entries@[a].0 == self.entries@[a].0);
                            assert(old(self).entries@[b].0 == self.entries@[b].0);
                        }
                    }
                    assert forall|key: K| #[trigger]
                        self.view().contains_key(key) == pre.insert(k, v).contains_key(key) by {
                        if old(self).has_key(key) {
                            let j = old(self).index_of(key);
                            assert(self.entries@[j].0 == key);
                        }
                        if self.has_key(key) {
                            let j = self.index_of(key);
                            assert(old(self).entries@[j].0 == key || j == i);
                        }
                    }
                    assert forall|key: K| #[trigger]
                        self.view().contains_key(key) implies self.view()[key] == pre.insert(
                        k,
                        v,
                    )[key] by {
                        let j = self.index_of(key);
                        self.lemma_index(j);
                        if j != i {
                            self.lemma_keys_distinct(i as int, j);
                            old(self).lemma_index(j);
                        }
                    }
                    assert(self.view() =~= pre.insert(k, v));
                }
            },
            None => {
                let p = self.insertion_point(&k);
                self.entries.insert(p, (k, v));
                proof {
                    let olde = old(self).entries@;
                    assert forall|a: int|
                        0 <= a < self.entries@.len() implies #[trigger] self.entries@[a] == (if a
                        < p {
                        olde[a]
                    } else if a == p {
                        (k, v)
                    } else {
                        olde[a - 1]
                    }) by {}
                    assert(self.wf()) by {
                        assert forall|a: int, b: int|
                            #![trigger self.entries@[a], self.entries@[b]]
                            0 <= a < b < self.entries@.len() implies self.entries@[a].0.key_lt(
                            self.entries@[b].0,
                        ) by {
                            if a < p && b > p {
                                K::lemma_key_order(olde[a].0, k, olde[b - 1].0);
                            }
                            if a < p && b < p {
                                assert(olde[a].0.key_lt(olde[b].0));
                            }
                            if a > p && b > p {
                                assert(olde[a - 1].0.key_lt(olde[b - 1].0));
                            }
                        }
                    }
                    assert forall|key: K| #[trigger]
                        self.view().contains_key(key) == pre.insert(k, v).contains_key(key) by {
                        if old(self).has_key(key) {
                            let j = old(self).index_of(key);
                            if j < p {
                                assert(self.entries@[j].0 == key);
                            } else {
                                assert(self.entries@[j + 1].0 == key);
                            }
                        }
                        if key == k {
                            assert(self.entries@[p as int].0 == key);
                        }
                        if self.has_key(key) {
                            let j = self.index_of(key);
                            if j < p {
                                assert(olde[j].0 == key);
                            } else if j > p {
                                assert(olde[j - 1].0 == key);
                            }
                        }
                    }
                    assert forall|key: K| #[trigger]
                        self.view().contains_key(key) implies self.view()[key] == pre.insert(
                        k,
                        v,
                    )[key] by {
                        let j = self.index_of(key);
                        self.lemma_index(j);
                        if j < p {
                            old(self).lemma_index(j);
                        } else if j > p {
                            old(self).lemma_index(j - 1);
                        }
                    }
                    assert(self.view() =~= pre.insert(k, v));
                }
            },
        }
    }

    /// Replaces the value held at a position, keeping its key.
    pub fn set_value_at(&mut self, i: usize, v: V)
        requires
            old(self).wf(),
            i < old(self).entries@.len(),
        ensures
            final(self).wf(),
            final(self).entries@ == old(self).entries@.update(
                i as int,
                (old(self).entries@[i as int].0, v),
            ),
            final(self).view() == old(self).view().insert(old(self).entries@[i as int].0, v),
    {
        let ghost pre = self.view();
        let ghost k = self.entries@[i as int].0;
        let key = self.entries[i].0;
        self.entries.set(i, (key, v));
        proof {
            assert(self.wf()) by {
                assert forall|a: int, b: int|
                    #![trigger self.entries@[a], self.entries@[b]]
                    0 <= a < b < self.entries@.len() implies self.entries@[a].0.key_lt(
                    self.entries@[b].0,
                ) by {
                    assert(old(self).entries@[a].0 == self.entries@[a].0);
                    assert(old(self).entries@[b].0 == self.entries@[b].0);
                }
            }
            assert forall|key: K| #[trigger]
                self.view().contains_key(key) == pre.insert(k, v).contains_key(key) by {
                if old(self).has_key(key) {
                    let j = old(self).index_of(key);
                    assert(self.entries@[j].0 == key);
                }
                if self.has_key(key) {
                    let j = self.index_of(key);
                    assert(old(self).entries@[j].0 == key || j == i);
                }
            }
            assert forall|key: K| #[trigger]
                self.view().contains_key(key) implies self.view()[key] == pre.insert(k, v)[key] by {
                let j = self.index_of(key);
                self.lemma_index(j);
                if j != i {
                    self.lemma_keys_distinct(i as int, j);
                    old(self).lemma_index(j);
                }
            }
            assert(self.view() =~= pre.insert(k, v));
        }
    }

    /// Removes the entry at a position.
    pub fn remove_at(&mut self, i: usize) -> (r: (K, V))
        requires
            old(self).wf(),
            i < old(self).entries@.len(),
        ensures
            final(self).wf(),
            r == old(self).entries@[i as int],
            final(self).entries@ == old(self).entries@.remove(i as int),
            final(self).view() == old(self).view().remove(r.0),
    {
        let ghost pre = self.view();
        let r = self.entries.remove(i);
        proof {
            let olde = old(self).entries@;
            old(self).lemma_index(i as int);
            assert forall|a: int| 0 <= a < self.entries@.len() implies #[trigger] self.entries@[a]
                == (if a < i {
                olde[a]
            } else {
                olde[a + 1]
            }) by {}
            assert(self.wf()) by {
                assert forall|a: int, b: int|
                    #![trigger self.entries@[a], self.entries@[b]]
                    0 <= a < b < self.entries@.len() implies self.entries@[a].0.key_lt(
                    self.entries@[b].0,
                ) by {
                    let a2 = if a < i {
                        a
                    } else {
                        a + 1
                    };
                    let b2 = if b < i {
                        b
                    } else {
                        b + 1
                    };
                    assert(olde[a2].0.key_lt(olde[b2].0));
                }
            }
            assert forall|key: K| #[trigger]
                self.view().contains_key(key) == pre.remove(r.0).contains_key(key) by {
                if self.has_key(key) {
                    let j = self.index_of(key);
                    let j2 = if j < i {
                        j
                    } else {
                        j + 1
                    };
                    assert(olde[j2].0 == key);
                    old(self).lemma_keys_distinct(j2, i as int);
                }
                if old(self).has_key(key) && key != r.0 {
                    let j = old(self).index_of(key);
                    if j < i {
                        assert(self.entries@[j].0 == key);
                    } else if j > i {
                        assert(self.entries@[j - 1].0 == key);
                    }
                }
            }
            assert forall|key: K| #[trigger]
                self.view().contains_key(key) implies self.view()[key] == pre.remove(r.0)[key] by {
                let j = self.index_of(key);
                self.lemma_index(j);
                if j < i {
                    old(self).lemma_index(j);
                } else {
                    old(self).lemma_index(j + 1);
                }
            }
            assert(self.view() =~= pre.remove(r.0));
        }
        r
    }

    /// Removes `k`, answering with the value it held.
    pub fn remove(&mut self, k: &K) -> (r: Option<V>)
        requires
            old(self).wf(),
        ensures
            final(self).wf(),
            final(self).view() == old(self).view().remove(*k),
            match r {
                Some(v) => old(self).view().contains_key(*k) && v == old(self).view()[*k],
                None => !old(self).view().contains_key(*k),
            },
    {
        match self.find(k) {
            Some(i) => {
                proof {
                    self.lemma_index(i as int);
                }
                let (_, v) = self.remove_at(i);
                Some(v)
            },
            None => {
                proof {
                    assert(self.view().remove(*k) =~= self.view());
                }
                None
            },
        }
    }

    /// The number of entries, which is the size of the map.
    pub fn len(&self) -> (r: usize)
        requires
            self.wf(),
        ensures
            r == self.entries@.len(),
            r == self.view().len(),
    {
        proof {
            self.lemma_len();
        }
        self.entries.len()
    }

    /// The keys, in order, whose entries a predicate holds of.
    pub fn keys_where<P: XEntryPredicate<K, V>>(&self, p: &P) -> (r: Vec<K>)
        requires
            self.wf(),
        ensures
            forall|k: K| #[trigger]
                r@.contains(k) <==> (self.view().contains_key(k) && p.holds(k, self.view()[k])),
            r@.no_duplicates(),
    {
        let mut out: Vec<K> = Vec::new();
        let mut i: usize = 0;
        while i < self.entries.len()
            invariant
                self.wf(),
                i <= self.entries@.len(),
                forall|k: K| #[trigger]
                    out@.contains(k) <==> exists|j: int|
                        0 <= j < i && #[trigger] self.entries@[j].0 == k && p.holds(
                            k,
                            self.entries@[j].1,
                        ),
                forall|a: int, b: int|
                    0 <= a < b < out@.len() ==> (#[trigger] out@[a]).key_lt(#[trigger] out@[b]),
                forall|a: int|
                    0 <= a < out@.len() ==> exists|j: int|
                        0 <= j < i && self.entries@[j].0 == #[trigger] out@[a],
            decreases self.entries@.len() - i,
        {
            let ghost old_out = out@;
            let pick = p.test(&self.entries[i].0, &self.entries[i].1);
            if pick {
                proof {
                    assert forall|a: int| 0 <= a < out@.len() implies (#[trigger] out@[a]).key_lt(
                        self.entries@[i as int].0,
                    ) by {
                        let j = choose|j: int| 0 <= j < i && self.entries@[j].0 == out@[a];
                        assert(self.entries@[j].0.key_lt(self.entries@[i as int].0));
                    }
                }
                out.push(self.entries[i].0);
            }
            proof {
                assert forall|k: K| #[trigger]
                    out@.contains(k) <==> exists|j: int|
                        0 <= j < i + 1 && #[trigger] self.entries@[j].0 == k && p.holds(
                            k,
                            self.entries@[j].1,
                        ) by {
                    if out@.contains(k) {
                        if old_out.contains(k) {
                        } else {
                            let a = choose|a: int| 0 <= a < out@.len() && out@[a] == k;
                            assert(a == old_out.len());
                            assert(self.entries@[i as int].0 == k);
                        }
                    }
                    if exists|j: int|
                        0 <= j < i + 1 && #[trigger] self.entries@[j].0 == k && p.holds(
                            k,
                            self.entries@[j].1,
                        ) {
                        let j = choose|j: int|
                            0 <= j < i + 1 && #[trigger] self.entries@[j].0 == k && p.holds(
                                k,
                                self.entries@[j].1,
                            );
                        if j < i {
                            assert(old_out.contains(k));
                            let a = choose|a: int| 0 <= a < old_out.len() && old_out[a] == k;
                            assert(out@[a] == k);
                        } else {
                            assert(out@[out@.len() - 1] == k);
                        }
                    }
                }
            }
            i = i + 1;
        }
        proof {
            assert forall|k: K| #[trigger]
                out@.contains(k) <==> (self.view().contains_key(k) && p.holds(k, self.view()[k])) by {
                if out@.contains(k) {
                    let j = choose|j: int|
                        0 <= j < i && #[trigger] self.entries@[j].0 == k && p.holds(
                            k,
                            self.entries@[j].1,
                        );
                    self.lemma_index(j);
                }
                if self.view().contains_key(k) && p.holds(k, self.view()[k]) {
                    let j = self.index_of(k);
                    self.lemma_index(j);
                }
            }
            assert forall|a: int, b: int|
                0 <= a < out@.len() && 0 <= b < out@.len() && a != b implies out@[a] != out@[b] by {
                if a < b {
                    K::lemma_key_order(out@[a], out@[b], out@[b]);
                } else {
                    K::lemma_key_order(out@[b], out@[a], out@[a]);
                }
            }
        }
        out
    }

    /// Removes every key a list names.
    pub fn remove_keys(&mut self, keys: &Vec<K>)
        requires
            old(self).wf(),
        ensures
            final(self).wf(),
            forall|k: K| #[trigger]
                final(self).view().contains_key(k) <==> (old(self).view().contains_key(k)
                    && !keys@.contains(k)),
            forall|k: K| #[trigger]
                final(self).view().contains_key(k) ==> final(self).view()[k] == old(self).view()[k],
    {
        let ghost pre = self.view();
        let mut i: usize = 0;
        while i < keys.len()
            invariant
                self.wf(),
                i <= keys@.len(),
                forall|k: K| #[trigger]
                    self.view().contains_key(k) <==> (pre.contains_key(k) && !keys@.take(
                        i as int,
                    ).contains(k)),
                forall|k: K| #[trigger] self.view().contains_key(k) ==> self.view()[k] == pre[k],
            decreases keys@.len() - i,
        {
            let k = keys[i];
            self.remove(&k);
            proof {
                let t0 = keys@.take(i as int);
                let t1 = keys@.take(i + 1);
                assert forall|x: K| #[trigger] t1.contains(x) <==> (t0.contains(x) || x == k) by {
                    if t1.contains(x) {
                        let a = choose|a: int| 0 <= a < t1.len() && t1[a] == x;
                        if a < i {
                            assert(t0[a] == x);
                        }
                    }
                    if t0.contains(x) {
                        let a = choose|a: int| 0 <= a < t0.len() && t0[a] == x;
                        assert(t1[a] == x);
                    }
                    if x == k {
                        assert(t1[i as int] == x);
                    }
                }
            }
            i = i + 1;
        }
        proof {
            assert(keys@.take(i as int) =~= keys@);
        }
    }

    /// The keys, in order.
    pub fn keys(&self) -> (r: Vec<K>)
        requires
            self.wf(),
        ensures
            r@ == self.keys_seq(),
    {
        let mut out: Vec<K> = Vec::new();
        let mut i: usize = 0;
        while i < self.entries.len()
            invariant
                i <= self.entries@.len(),
                out@ == self.keys_seq().take(i as int),
            decreases self.entries@.len() - i,
        {
            out.push(self.entries[i].0);
            i = i + 1;
            proof {
                assert(out@ =~= self.keys_seq().take(i as int));
            }
        }
        proof {
            assert(self.keys_seq().take(i as int) =~= self.keys_seq());
        }
        out
    }

    pub proof fn lemma_dom(&self)
        requires
            self.wf(),
        ensures
            self.view().dom() == self.keys_seq().to_set(),
            self.keys_seq().no_duplicates(),
    {
        assert forall|k: K| #[trigger] self.view().dom().contains(k) == self.keys_seq().to_set().contains(k) by {
            if self.has_key(k) {
                let j = self.index_of(k);
                assert(self.keys_seq()[j] == k);
            }
            if self.keys_seq().contains(k) {
                let j = choose|j: int| 0 <= j < self.keys_seq().len() && self.keys_seq()[j] == k;
                assert(self.entries@[j].0 == k);
            }
        }
        assert(self.view().dom() =~= self.keys_seq().to_set());
        assert forall|i: int, j: int|
            0 <= i < self.keys_seq().len() && 0 <= j < self.keys_seq().len() && i != j implies self.keys_seq()[i]
            != self.keys_seq()[j] by {
            self.lemma_keys_distinct(i, j);
        }
    }

    pub proof fn lemma_len(&self)
        requires
            self.wf(),
        ensures
            self.view().len() == self.entries@.len(),
            self.view().dom().finite(),
    {
        self.lemma_dom();
        self.keys_seq().unique_seq_to_set();
    }
}

} // verus!
