use vstd::prelude::*;

verus! {

/// A key that can be compared and copied by executable code in agreement with its view.
pub trait TableKey: View + Sized {
    fn key_eq(&self, other: &Self) -> (r: bool)
        ensures
            r == (self@ == other@),
    ;

    fn key_clone(&self) -> (r: Self)
        ensures
            r@ == self@,
    ;
}

/// Compares two byte strings element by element.
pub fn bytes_eq(a: &Vec<u8>, b: &Vec<u8>) -> (r: bool)
    ensures
        r == (a@ == b@),
{
    if a.len() != b.len() {
        return false;
    }
    let mut i: usize = 0;
    while i < a.len()
        invariant
            a@.len() == b@.len(),
            i <= a@.len(),
            forall|j: int| 0 <= j < i ==> a@[j] == b@[j],
        decreases a@.len() - i,
    {
        if a[i] != b[i] {
            return false;
        }
        i = i + 1;
    }
    assert(a@ =~= b@);
    true
}

/// Copies a byte string.
pub fn bytes_clone(a: &Vec<u8>) -> (r: Vec<u8>)
    ensures
        r@ == a@,
{
    let mut r: Vec<u8> = Vec::new();
    let mut i: usize = 0;
    while i < a.len()
        invariant
            i <= a@.len(),
            r@ == a@.subrange(0, i as int),
        decreases a@.len() - i,
    {
        r.push(a[i]);
        i = i + 1;
        assert(r@ =~= a@.subrange(0, i as int));
    }
    assert(a@.subrange(0, a@.len() as int) =~= a@);
    r
}

/// Copies an optional byte string.
pub fn opt_bytes_clone(a: &Option<Vec<u8>>) -> (r: Option<Vec<u8>>)
    ensures
        r.is_some() == a.is_some(),
        r.is_some() ==> r.unwrap()@ == a.unwrap()@,
{
    match a {
        Some(b) => Some(bytes_clone(b)),
        None => None,
    }
}

impl TableKey for u32 {
    fn key_eq(&self, other: &Self) -> (r: bool) {
        *self == *other
    }

    fn key_clone(&self) -> (r: Self) {
        *self
    }
}

impl TableKey for u64 {
    fn key_eq(&self, other: &Self) -> (r: bool) {
        *self == *other
    }

    fn key_clone(&self) -> (r: Self) {
        *self
    }
}

impl TableKey for (u32, u32) {
    fn key_eq(&self, other: &Self) -> (r: bool) {
        self.0 == other.0 && self.1 == other.1
    }

    fn key_clone(&self) -> (r: Self) {
        (self.0, self.1)
    }
}

impl TableKey for (u32, u64) {
    fn key_eq(&self, other: &Self) -> (r: bool) {
        self.0 == other.0 && self.1 == other.1
    }

    fn key_clone(&self) -> (r: Self) {
        (self.0, self.1)
    }
}

impl TableKey for (u64, u32) {
    fn key_eq(&self, other: &Self) -> (r: bool) {
        self.0 == other.0 && self.1 == other.1
    }

    fn key_clone(&self) -> (r: Self) {
        (self.0, self.1)
    }
}

impl TableKey for (u32, Vec<u8>) {
    fn key_eq(&self, other: &Self) -> (r: bool) {
        self.0 == other.0 && bytes_eq(&self.1, &other.1)
    }

    fn key_clone(&self) -> (r: Self) {
        (self.0, bytes_clone(&self.1))
    }
}

/// A finite map kept as a vector of distinct-key entries.
///
/// Its view is the mathematical map from key views to value views.
pub struct Table<K: TableKey, V: View> {
    entries: Vec<(K, V)>,
    contents: Ghost<Map<K::V, V::V>>,
}

impl<K: TableKey, V: View> View for Table<K, V> {
    type V = Map<K::V, V::V>;

    closed spec fn view(&self) -> Map<K::V, V::V> {
        self.contents@
    }
}

impl<K: TableKey, V: View> Table<K, V> {
    /// Keys are distinct and the entries agree with the ghost map.
    pub closed spec fn wf(&self) -> bool {
        &&& forall|i: int|
            0 <= i < self.entries@.len() ==> #[trigger] self.contents@.contains_key(
                self.entries@[i].0@,
            ) && self.contents@[self.entries@[i].0@] == self.entries@[i].1@
        &&& forall|k: K::V| #[trigger]
            self.contents@.contains_key(k) ==> exists|i: int|
                0 <= i < self.entries@.len() && #[trigger] self.entries@[i].0@ == k
        &&& forall|i: int, j: int|
            0 <= i < self.entries@.len() && 0 <= j < self.entries@.len() && i != j
                ==> #[trigger] self.entries@[i].0@ != #[trigger] self.entries@[j].0@
    }

    /// The number of entries, as a spec value.
    pub closed spec fn spec_len(&self) -> nat {
        self.entries@.len()
    }

    /// The key view of the entry at position `i`.
    pub closed spec fn key_view_at(&self, i: int) -> K::V {
        self.entries@[i].0@
    }

    /// The value view of the entry at position `i`.
    pub closed spec fn value_view_at(&self, i: int) -> V::V {
        self.entries@[i].1@
    }

    pub fn new() -> (r: Self)
        ensures
            r.wf(),
            r@ == Map::<K::V, V::V>::empty(),
    {
        Table { entries: Vec::new(), contents: Ghost(Map::empty()) }
    }

    /// The number of entries. Positions below it enumerate the map: each holds a distinct
    /// key of the map with its value, and every key of the map stands at some position.
    pub fn len(&self) -> (r: usize)
        requires
            self.wf(),
        ensures
            r == self.spec_len(),
            self@.dom().finite(),
            self@.dom().len() == self.spec_len(),
            forall|i: int|
                0 <= i < self.spec_len() ==> #[trigger] self@.contains_key(self.key_view_at(i))
                    && self@[self.key_view_at(i)] == self.value_view_at(i),
            forall|k: K::V| #[trigger]
                self@.contains_key(k) ==> exists|i: int|
                    0 <= i < self.spec_len() && #[trigger] self.key_view_at(i) == k,
            forall|i: int, j: int|
                0 <= i < self.spec_len() && 0 <= j < self.spec_len() && i != j
                    ==> #[trigger] self.key_view_at(i) != #[trigger] self.key_view_at(j),
    {
        proof {
            let keys = self.entries@.map_values(|e: (K, V)| e.0@);
            assert forall|i: int, j: int|
                0 <= i < keys.len() && 0 <= j < keys.len() && i != j implies keys[i] != keys[j] by {
                assert(self.entries@[i].0@ != self.entries@[j].0@);
            }
            keys.unique_seq_to_set();
            assert forall|k: K::V| #[trigger]
                self@.contains_key(k) implies exists|i: int|
                0 <= i < self.spec_len() && #[trigger] self.key_view_at(i) == k by {
                let i = choose|i: int| 0 <= i < self.entries@.len() && self.entries@[i].0@ == k;
                assert(self.key_view_at(i) == k);
            }
            assert(keys.to_set() =~= self@.dom()) by {
                assert forall|k: K::V| keys.to_set().contains(k) implies self@.dom().contains(k) by {
                    let i = choose|i: int| 0 <= i < keys.len() && keys[i] == k;
                    assert(self.contents@.contains_key(self.entries@[i].0@));
                }
                assert forall|k: K::V| self@.dom().contains(k) implies keys.to_set().contains(k) by {
                    assert(self.contents@.contains_key(k));
                    let i = choose|i: int| 0 <= i < self.entries@.len() && self.entries@[i].0@ == k;
                    assert(keys[i] == k);
                }
            }
        }
        self.entries.len()
    }

    pub fn key_at(&self, i: usize) -> (r: &K)
        requires
            self.wf(),
            i < self.spec_len(),
        ensures
            r@ == self.key_view_at(i as int),
    {
        &self.entries[i].0
    }

    pub fn value_at(&self, i: usize) -> (r: &V)
        requires
            self.wf(),
            i < self.spec_len(),
        ensures
            r@ == self.value_view_at(i as int),
    {
        &self.entries[i].1
    }

    fn find(&self, k: &K) -> (r: Option<usize>)
        requires
            self.wf(),
        ensures
            match r {
                Some(i) => i < self.entries@.len() && self.entries@[i as int].0@ == k@,
                None => !self@.contains_key(k@),
            },
    {
        let mut i: usize = 0;
        while i < self.entries.len()
            invariant
                i <= self.entries@.len(),
                forall|j: int| 0 <= j < i ==> self.entries@[j].0@ != k@,
            decreases self.entries@.len() - i,
        {
            if self.entries[i].0.key_eq(k) {
                return Some(i);
            }
            i = i + 1;
        }
        proof {
            if self.contents@.contains_key(k@) {
                let j = choose|j: int| 0 <= j < self.entries@.len() && self.entries@[j].0@ == k@;
                assert(self.entries@[j].0@ != k@);
            }
        }
        None
    }

    pub fn contains_key(&self, k: &K) -> (r: bool)
        requires
            self.wf(),
        ensures
            r == self@.contains_key(k@),
    {
        match self.find(k) {
            Some(i) => {
                assert(self.contents@.contains_key(self.entries@[i as int].0@));
                true
            },
            None => false,
        }
    }

    pub fn get(&self, k: &K) -> (r: Option<&V>)
        requires
            self.wf(),
        ensures
            r.is_some() == self@.contains_key(k@),
            r.is_some() ==> r.unwrap()@ == self@[k@],
    {
        match self.find(k) {
            Some(i) => {
                assert(self.contents@.contains_key(self.entries@[i as int].0@));
                Some(&self.entries[i].1)
            },
            None => None,
        }
    }

    pub fn remove(&mut self, k: &K) -> (r: Option<V>)
        requires
            old(self).wf(),
        ensures
            final(self).wf(),
            final(self)@ == old(self)@.remove(k@),
            r.is_some() == old(self)@.contains_key(k@),
            r.is_some() ==> r.unwrap()@ == old(self)@[k@],
    {
        match self.find(k) {
            None => {
                assert(self.contents@.remove(k@) =~= self.contents@);
                None
            },
            Some(i) => {
                let ghost old_entries = self.entries@;
                let ghost old_map = self.contents@;
                assert(old_map.contains_key(old_entries[i as int].0@));
                let e = self.entries.swap_remove(i);
                self.contents = Ghost(old_map.remove(k@));
                proof {
                    let n = old_entries.len();
                    let ne = self.entries@;
                    assert forall|a: int| 0 <= a < ne.len() implies #[trigger] self.contents@.contains_key(
                        ne[a].0@,
                    ) && self.contents@[ne[a].0@] == ne[a].1@ by {
                        let src = if a == i { n - 1 } else { a };
                        assert(ne[a] == old_entries[src]);
                        assert(old_entries[src].0@ != old_entries[i as int].0@);
                        assert(old_map.contains_key(old_entries[src].0@));
                    }
                    assert forall|key: K::V| #[trigger]
                        self.contents@.contains_key(key) implies exists|a: int|
                        0 <= a < ne.len() && #[trigger] ne[a].0@ == key by {
                        assert(old_map.contains_key(key));
                        let b = choose|b: int|
                            0 <= b < old_entries.len() && old_entries[b].0@ == key;
                        assert(b != i);
                        if b == n - 1 {
                            assert(ne[i as int].0@ == key);
                        } else {
                            assert(ne[b].0@ == key);
                        }
                    }
                    assert forall|a: int, b: int|
                        0 <= a < ne.len() && 0 <= b < ne.len() && a != b implies #[trigger] ne[a].0@
                        != #[trigger] ne[b].0@ by {
                        let sa = if a == i { n - 1 } else { a };
                        let sb = if b == i { n - 1 } else { b };
                        assert(ne[a] == old_entries[sa]);
                        assert(ne[b] == old_entries[sb]);
                    }
                }
                Some(e.1)
            },
        }
    }

    pub fn insert(&mut self, k: K, v: V)
        requires
            old(self).wf(),
        ensures
            final(self).wf(),
            final(self)@ == old(self)@.insert(k@, v@),
    {
        let _ = self.remove(&k);
        let ghost old_entries = self.entries@;
        let ghost old_map = self.contents@;
        let ghost kv = k@;
        let ghost vv = v@;
        self.entries.push((k, v));
        self.contents = Ghost(old_map.insert(kv, vv));
        proof {
            let ne = self.entries@;
            let n = old_entries.len();
            assert(!old_map.contains_key(kv));
            assert forall|a: int| 0 <= a < ne.len() implies #[trigger] self.contents@.contains_key(
                ne[a].0@,
            ) && self.contents@[ne[a].0@] == ne[a].1@ by {
                if a < n {
                    assert(ne[a] == old_entries[a]);
                    assert(old_map.contains_key(old_entries[a].0@));
                }
            }
            assert forall|key: K::V| #[trigger]
                self.contents@.contains_key(key) implies exists|a: int|
                0 <= a < ne.len() && #[trigger] ne[a].0@ == key by {
                if key == kv {
                    assert(ne[n as int].0@ == key);
                } else {
                    assert(old_map.contains_key(key));
                    let b = choose|b: int| 0 <= b < old_entries.len() && old_entries[b].0@ == key;
                    assert(ne[b].0@ == key);
                }
            }
            assert forall|a: int, b: int|
                0 <= a < ne.len() && 0 <= b < ne.len() && a != b implies #[trigger] ne[a].0@
                != #[trigger] ne[b].0@ by {
                if a < n && b < n {
                    assert(ne[a] == old_entries[a]);
                    assert(ne[b] == old_entries[b]);
                } else if a < n {
                    assert(ne[a] == old_entries[a]);
                    assert(old_map.contains_key(old_entries[a].0@));
                } else if b < n {
                    assert(ne[b] == old_entries[b]);
                    assert(old_map.contains_key(old_entries[b].0@));
                }
            }
        }
    }
}

} // verus!

verus! {

/// The value stored under `k`, or `d` when there is none.
pub open spec fn value_or<K, V>(m: Map<K, V>, k: K, d: V) -> V {
    if m.contains_key(k) {
        m[k]
    } else {
        d
    }
}

impl<K: TableKey> Table<K, u32> {
    /// The value under `k`, zero when unset.
    pub fn get_or_zero(&self, k: &K) -> (r: u32)
        requires
            self.wf(),
        ensures
            r == value_or(self@, k@, 0u32),
    {
        match self.get(k) {
            Some(v) => *v,
            None => 0,
        }
    }
}

impl<K: TableKey> Table<K, u64> {
    /// The value under `k`, zero when unset.
    pub fn get_or_zero(&self, k: &K) -> (r: u64)
        requires
            self.wf(),
        ensures
            r == value_or(self@, k@, 0u64),
    {
        match self.get(k) {
            Some(v) => *v,
            None => 0,
        }
    }
}

impl<K: TableKey> Table<K, u128> {
    /// The value under `k`, zero when unset.
    pub fn get_or_zero(&self, k: &K) -> (r: u128)
        requires
            self.wf(),
        ensures
            r == value_or(self@, k@, 0u128),
    {
        match self.get(k) {
            Some(v) => *v,
            None => 0,
        }
    }
}

} // verus!
