use vstd::prelude::*;

use std::collections::HashMap;

verus! {

broadcast use vstd::std_specs::hash::group_hash_axioms;

/// The key of node `id` of subnet `s` in the slot index.
pub open spec fn slot_key(s: u32, id: u32) -> u64 {
    (s as int * 0x1_0000_0000 + id as int) as u64
}

pub open spec fn key_subnet(k: u64) -> u32 {
    (k / 0x1_0000_0000) as u32
}

pub open spec fn key_member(k: u64) -> u32 {
    (k % 0x1_0000_0000) as u32
}

/// A slot key gives back its subnet and its node id.
pub broadcast proof fn lemma_slot_key_parts(s: u32, id: u32)
    ensures
        key_subnet(#[trigger] slot_key(s, id)) == s,
        key_member(slot_key(s, id)) == id,
{
    let k = s as int * 0x1_0000_0000 + id as int;
    assert(k < 0x1_0000_0000_0000_0000) by (nonlinear_arith)
        requires
            k == s as int * 0x1_0000_0000 + id as int,
            s <= u32::MAX,
            id <= u32::MAX,
    ;
    assert(k / 0x1_0000_0000 == s as int && k % 0x1_0000_0000 == id as int) by (nonlinear_arith)
        requires
            k == s as int * 0x1_0000_0000 + id as int,
            0 <= id < 0x1_0000_0000,
            s >= 0,
    ;
}

fn slot_key_of(s: u32, id: u32) -> (r: u64)
    ensures
        r == slot_key(s, id),
{
    proof {
        lemma_slot_key_parts(s, id);
    }
    (s as u64) * 0x1_0000_0000 + id as u64
}

/// The slot list of subnet `s`, empty when the subnet has none.
pub open spec fn list_of(slots: Map<u32, Vec<u32>>, s: u32) -> Seq<u32> {
    if slots.contains_key(s) {
        slots[s]@
    } else {
        Seq::empty()
    }
}

/// The counter of subnet `s`, zero when unset.
pub open spec fn count_of(m: Map<u32, u32>, s: u32) -> u32 {
    if m.contains_key(s) {
        m[s]
    } else {
        0
    }
}

/// The nodes that may be chosen as validator: per subnet, a dense list of node ids with the
/// position of each id kept in a reverse index, and per-subnet and network-wide counts.
pub struct ElectionSlots {
    pub slots: HashMap<u32, Vec<u32>>,
    /// `slot_key(subnet, id)` to the id's position in its subnet's list.
    pub slot_index: HashMap<u64, u32>,
    pub subnet_electable: HashMap<u32, u32>,
    pub total_electable: u32,
}

impl ElectionSlots {
    /// The reverse index finds each member at its position, no list holds an id twice, the
    /// subnet counters are the list lengths and the network counter is the number of members.
    pub open spec fn wf(&self) -> bool {
        &&& forall|s: u32, i: int|
            0 <= i < list_of(self.slots@, s).len() ==> #[trigger] self.slot_index@.contains_key(
                slot_key(s, list_of(self.slots@, s)[i]),
            ) && self.slot_index@[slot_key(s, list_of(self.slots@, s)[i])] == i
        &&& forall|s: u32, id: u32| #[trigger]
            self.slot_index@.contains_key(slot_key(s, id)) ==> {
                let p = self.slot_index@[slot_key(s, id)] as int;
                0 <= p < list_of(self.slots@, s).len() && list_of(self.slots@, s)[p] == id
            }
        &&& forall|s: u32|
            #[trigger] count_of(self.subnet_electable@, s) as int == list_of(self.slots@, s).len()
        &&& self.total_electable as int == self.slot_index@.dom().len()
    }

    /// Whether `id` holds a slot in subnet `s`.
    pub open spec fn is_member(&self, s: u32, id: u32) -> bool {
        self.slot_index@.contains_key(slot_key(s, id))
    }

    /// `self` is `old` after taking `id` out of the slots of subnet `s`: the last member moves
    /// into the freed position and both counters drop by one; nothing changes when `id` held
    /// no slot there.
    pub open spec fn removed(&self, old: &ElectionSlots, s: u32, id: u32) -> bool {
        &&& old.is_member(s, id) ==> {
            let l = list_of(old.slots@, s);
            let p = old.slot_index@[slot_key(s, id)] as int;
            &&& list_of(self.slots@, s) == l.update(p, l.last()).drop_last()
            &&& self.total_electable == old.total_electable - 1
            &&& count_of(self.subnet_electable@, s) == count_of(old.subnet_electable@, s) - 1
        }
        &&& !old.is_member(s, id) ==> *self == *old
        &&& forall|t: u32| t != s ==> list_of(self.slots@, t) == list_of(old.slots@, t)
        &&& !self.is_member(s, id)
    }

    /// The position of node `id` in the slots of subnet `s`, if it holds one.
    pub fn slot_of(&self, s: u32, id: u32) -> (r: Option<u32>)
        ensures
            r.is_some() == self.is_member(s, id),
            r matches Some(p) ==> p == self.slot_index@[slot_key(s, id)],
    {
        match self.slot_index.get(&slot_key_of(s, id)) {
            Some(p) => Some(*p),
            None => None,
        }
    }

    pub fn new() -> (r: Self)
        ensures
            r.wf(),
            forall|s: u32| list_of(r.slots@, s) == Seq::<u32>::empty(),
            r.total_electable == 0,
    {
        let r = ElectionSlots {
            slots: HashMap::new(),
            slot_index: HashMap::new(),
            subnet_electable: HashMap::new(),
            total_electable: 0,
        };
        assert(r.slot_index@.dom() =~= Set::empty());
        r
    }

    /// Adds `id` to the slots of subnet `s`; false, with nothing changed, when it is there.
    pub fn insert(&mut self, s: u32, id: u32) -> (r: bool)
        requires
            old(self).wf(),
            old(self).total_electable < u32::MAX || old(self).is_member(s, id),
        ensures
            final(self).wf(),
            r == !old(self).is_member(s, id),
            !r ==> *final(self) == *old(self),
            r ==> list_of(final(self).slots@, s) == list_of(old(self).slots@, s).push(id),
            r ==> final(self).total_electable == old(self).total_electable + 1,
            r ==> count_of(final(self).subnet_electable@, s) == count_of(
                old(self).subnet_electable@,
                s,
            ) + 1,
            forall|t: u32| t != s ==> list_of(final(self).slots@, t) == list_of(old(self).slots@, t),
            final(self).is_member(s, id),
    {
        broadcast use lemma_slot_key_parts;

        if self.slot_index.contains_key(&slot_key_of(s, id)) {
            return false;
        }
        let ghost old_self = *self;
        let taken = self.slots.remove(&s);
        let mut list = match taken {
            Some(l) => l,
            None => Vec::new(),
        };
        assert(list@ == list_of(old_self.slots@, s));
        // Every member of the list is a distinct key of the index, so the list is no longer
        // than the index.
        proof {
            let keys = Set::new(|k: u64| key_subnet(k) == s && list@.contains(key_member(k)) && k == slot_key(s, key_member(k)));
            assert(keys.subset_of(old_self.slot_index@.dom()));
            vstd::set_lib::lemma_len_subset(keys, old_self.slot_index@.dom());
            let m = list@.to_set();
            assert(list@.no_duplicates()) by {
                assert forall|a: int, b: int|
                    0 <= a < list@.len() && 0 <= b < list@.len() && a != b implies list@[a]
                    != list@[b] by {
                    assert(old_self.slot_index@.contains_key(slot_key(s, list_of(old_self.slots@, s)[a])));
                    assert(old_self.slot_index@.contains_key(slot_key(s, list_of(old_self.slots@, s)[b])));
                }
            }
            list@.unique_seq_to_set();
            let f = |x: u32| slot_key(s, x);
            assert forall|k: u64| keys.contains(k) implies m.map(f).contains(k) by {
                assert(m.contains(key_member(k)));
                assert(f(key_member(k)) == k);
            }
            assert forall|k: u64| m.map(f).contains(k) implies keys.contains(k) by {
                let x = choose|x: u32| m.contains(x) && f(x) == k;
            }
            assert(keys =~= m.map(f));
            vstd::set_lib::lemma_map_size(m, keys, f);
        }
        let pos = list.len() as u32;
        list.push(id);
        self.slots.insert(s, list);
        self.slot_index.insert(slot_key_of(s, id), pos);
        let c = match self.subnet_electable.get(&s) {
            Some(c) => *c,
            None => 0,
        };
        assert(count_of(old_self.subnet_electable@, s) == c);
        self.subnet_electable.insert(s, c + 1);
        self.total_electable = self.total_electable + 1;
        proof {
            assert(self.slot_index@.dom() =~= old_self.slot_index@.dom().insert(slot_key(s, id)));
            assert forall|t: u32, i: int|
                0 <= i < list_of(self.slots@, t).len() implies #[trigger] self.slot_index@.contains_key(
                slot_key(t, list_of(self.slots@, t)[i]),
            ) && self.slot_index@[slot_key(t, list_of(self.slots@, t)[i])] == i by {
                if t == s && i < list_of(old_self.slots@, t).len() {
                    assert(old_self.slot_index@.contains_key(slot_key(t, list_of(old_self.slots@, t)[i])));
                } else if t != s {
                    assert(old_self.slot_index@.contains_key(slot_key(t, list_of(old_self.slots@, t)[i])));
                }
            }
            assert forall|t: u32, x: u32| #[trigger] self.slot_index@.contains_key(slot_key(t, x)) implies {
                let p = self.slot_index@[slot_key(t, x)] as int;
                0 <= p < list_of(self.slots@, t).len() && list_of(self.slots@, t)[p] == x
            } by {
                if (t, x) != (s, id) {
                    assert(old_self.slot_index@.contains_key(slot_key(t, x)));
                }
            }
            assert forall|t: u32|
                #[trigger] count_of(self.subnet_electable@, t) as int == list_of(
                    self.slots@,
                    t,
                ).len() by {
                assert(count_of(old_self.subnet_electable@, t) as int == list_of(
                    old_self.slots@,
                    t,
                ).len());
            }
        }
        true
    }

    /// Takes `id` out of the slots of subnet `s` by moving the last member into its place;
    /// false, with nothing changed, when it is not there.
    pub fn remove(&mut self, s: u32, id: u32) -> (r: bool)
        requires
            old(self).wf(),
        ensures
            final(self).wf(),
            r == old(self).is_member(s, id),
            final(self).removed(old(self), s, id),
    {
        broadcast use lemma_slot_key_parts;

        let pos = match self.slot_index.get(&slot_key_of(s, id)) {
            Some(p) => *p,
            None => {
                return false;
            },
        };
        let ghost old_self = *self;
        let ghost l = list_of(old_self.slots@, s);
        let taken = self.slots.remove(&s);
        let mut list = match taken {
            Some(v) => v,
            None => Vec::new(),
        };
        assert(list@ == l);
        let last_idx = list.len() - 1;
        let _ = list.swap_remove(pos as usize);
        if (pos as usize) != last_idx {
            let moved = list[pos as usize];
            assert(moved == l[last_idx as int]);
            self.slot_index.insert(slot_key_of(s, moved), pos);
        }
        self.slot_index.remove(&slot_key_of(s, id));
        self.slots.insert(s, list);
        let c = match self.subnet_electable.get(&s) {
            Some(c) => *c,
            None => 0,
        };
        assert(count_of(old_self.subnet_electable@, s) as int == l.len());
        self.subnet_electable.insert(s, c - 1);
        proof {
            let nl = l.update(pos as int, l.last()).drop_last();
            assert(list_of(self.slots@, s) == nl);
            assert(old_self.slot_index@.contains_key(slot_key(s, l[last_idx as int])));
            // The index keeps its keys, less the removed one.
            assert(self.slot_index@.dom() =~= old_self.slot_index@.dom().remove(slot_key(s, id)));
            // Distinct positions hold distinct ids.
            assert forall|a: int, b: int| 0 <= a < l.len() && 0 <= b < l.len() && a != b implies l[a]
                != l[b] by {
                assert(old_self.slot_index@.contains_key(slot_key(s, list_of(old_self.slots@, s)[a])));
                assert(old_self.slot_index@.contains_key(slot_key(s, list_of(old_self.slots@, s)[b])));
            }
            assert forall|t: u32, i: int|
                0 <= i < list_of(self.slots@, t).len() implies #[trigger] self.slot_index@.contains_key(
                slot_key(t, list_of(self.slots@, t)[i]),
            ) && self.slot_index@[slot_key(t, list_of(self.slots@, t)[i])] == i by {
                if t == s {
                    if i == pos as int {
                        assert(nl[i] == l[last_idx as int]);
                    } else {
                        assert(nl[i] == l[i]);
                        assert(old_self.slot_index@.contains_key(slot_key(t, list_of(old_self.slots@, t)[i])));
                    }
                } else {
                    assert(old_self.slot_index@.contains_key(slot_key(t, list_of(old_self.slots@, t)[i])));
                }
            }
            assert forall|t: u32, x: u32| #[trigger] self.slot_index@.contains_key(slot_key(t, x)) implies {
                let p = self.slot_index@[slot_key(t, x)] as int;
                0 <= p < list_of(self.slots@, t).len() && list_of(self.slots@, t)[p] == x
            } by {
                assert(old_self.slot_index@.contains_key(slot_key(t, x)));
                if t == s && x == l[last_idx as int] && pos != last_idx {
                } else if t == s {
                    let q = old_self.slot_index@[slot_key(t, x)] as int;
                    assert(l[q] == x);
                    if q == last_idx as int {
                        assert(x == l[last_idx as int]);
                    }
                }
            }
            assert forall|t: u32|
                #[trigger] count_of(self.subnet_electable@, t) as int == list_of(
                    self.slots@,
                    t,
                ).len() by {
                assert(count_of(old_self.subnet_electable@, t) as int == list_of(
                    old_self.slots@,
                    t,
                ).len());
            }
            assert(old_self.slot_index@.dom().contains(slot_key(s, id)));
        }
        self.total_electable = self.total_electable - 1;
        assert(list_of(self.slots@, s) == l.update(pos as int, l.last()).drop_last());
        assert(count_of(self.subnet_electable@, s) == count_of(old_self.subnet_electable@, s) - 1);
        assert(forall|t: u32| t != s ==> list_of(self.slots@, t) == list_of(old_self.slots@, t));
        assert(!self.is_member(s, id));
        true
    }
}

} // verus!
