use vstd::prelude::*;

use crate::election::slot_key;

use crate::pallet::Pallet;
use crate::table::{value_or, Table};
use crate::types::{
    spec_next_class, AccountId, SubnetNode, SubnetNodeClass, SubnetNodeClassification,
    SubnetNodeInfo, SubnetNodeInfoView, SubnetNodeView,
};

verus! {

/// The records among the first `n` positions of `t` that belong to subnet `s` and hold
/// `class` by `epoch`, in position order.
pub open spec fn classified_upto(
    t: Table<(u32, u32), SubnetNode>,
    n: int,
    s: u32,
    class: SubnetNodeClass,
    epoch: u32,
) -> Seq<SubnetNodeView>
    decreases n,
{
    if n <= 0 {
        Seq::empty()
    } else {
        let prev = classified_upto(t, n - 1, s, class, epoch);
        let k = t.key_view_at(n - 1);
        let v = t.value_view_at(n - 1);
        if k.0 == s && v.has_classification(class, epoch) {
            prev.push(v)
        } else {
            prev
        }
    }
}

/// The ids of the nodes of `classified_upto`, in the same order.
pub open spec fn classified_ids_upto(
    t: Table<(u32, u32), SubnetNode>,
    n: int,
    s: u32,
    class: SubnetNodeClass,
    epoch: u32,
) -> Seq<u32>
    decreases n,
{
    if n <= 0 {
        Seq::empty()
    } else {
        let prev = classified_ids_upto(t, n - 1, s, class, epoch);
        let k = t.key_view_at(n - 1);
        let v = t.value_view_at(n - 1);
        if k.0 == s && v.has_classification(class, epoch) {
            prev.push(k.1)
        } else {
            prev
        }
    }
}

pub open spec fn info_views(v: Seq<SubnetNodeInfo>) -> Seq<SubnetNodeInfoView> {
    v.map_values(|n: SubnetNodeInfo| n@)
}

pub open spec fn node_views(v: Seq<SubnetNode>) -> Seq<SubnetNodeView> {
    v.map_values(|n: SubnetNode| n@)
}

impl Pallet {
    /// The record of a node, active or registered.
    pub fn get_subnet_node(&self, subnet_id: u32, subnet_node_id: u32) -> (r: Option<SubnetNode>)
        requires
            self.wf(),
        ensures
            r.is_some() == self.node_of(subnet_id, subnet_node_id).is_some(),
            r.is_some() ==> r.unwrap()@ == self.node_of(subnet_id, subnet_node_id).unwrap(),
    {
        match self.node_ref(subnet_id, subnet_node_id) {
            Some(n) => Some(n.clone()),
            None => None,
        }
    }

    /// The record of an active node; registered nodes are not included.
    pub fn get_activated_subnet_node(&self, subnet_id: u32, subnet_node_id: u32) -> (r: Option<SubnetNode>)
        requires
            self.wf(),
        ensures
            r.is_some() == self.subnet_nodes@.contains_key((subnet_id, subnet_node_id)),
            r.is_some() ==> r.unwrap()@ == self.subnet_nodes@[(subnet_id, subnet_node_id)],
    {
        match self.subnet_nodes.get(&(subnet_id, subnet_node_id)) {
            Some(n) => Some(n.clone()),
            None => None,
        }
    }

    /// The record of an active node; registered nodes are not included.
    pub fn get_active_subnet_node(&self, subnet_id: u32, subnet_node_id: u32) -> (r: Option<SubnetNode>)
        requires
            self.wf(),
        ensures
            r.is_some() == self.subnet_nodes@.contains_key((subnet_id, subnet_node_id)),
            r.is_some() ==> r.unwrap()@ == self.subnet_nodes@[(subnet_id, subnet_node_id)],
    {
        self.get_activated_subnet_node(subnet_id, subnet_node_id)
    }

    /// The record of an active node that is a validator by `subnet_epoch`.
    pub fn get_validator_subnet_node(
        &self,
        subnet_id: u32,
        subnet_node_id: u32,
        subnet_epoch: u32,
    ) -> (r: Option<SubnetNode>)
        requires
            self.wf(),
        ensures
            r.is_some() == (self.subnet_nodes@.contains_key((subnet_id, subnet_node_id))
                && self.subnet_nodes@[(subnet_id, subnet_node_id)].has_classification(
                SubnetNodeClass::Validator,
                subnet_epoch,
            )),
            r.is_some() ==> r.unwrap()@ == self.subnet_nodes@[(subnet_id, subnet_node_id)],
    {
        match self.subnet_nodes.get(&(subnet_id, subnet_node_id)) {
            Some(n) => {
                if n.has_classification(&SubnetNodeClass::Validator, subnet_epoch) {
                    Some(n.clone())
                } else {
                    None
                }
            },
            None => None,
        }
    }

    /// Sets the operating key recorded in a node, in whichever partition holds it.
    pub fn update_subnet_node_hotkey(&mut self, subnet_id: u32, subnet_node_id: u32, new_hotkey: AccountId)
        requires
            old(self).wf(),
        ensures
            final(self).wf(),
            old(self).node_of(subnet_id, subnet_node_id) is None ==> *final(self) == *old(self),
            old(self).node_of(subnet_id, subnet_node_id) matches Some(n) ==> final(self).nodes_updated(
                old(self),
                subnet_id,
                subnet_node_id,
                SubnetNodeView { hotkey: new_hotkey, ..n },
            ),
            final(self).ids == old(self).ids,
            final(self).same_outside_nodes_and_ids(old(self)),
    {
        let mut node = match self.node_ref(subnet_id, subnet_node_id) {
            Some(n) => n.clone(),
            None => {
                return ;
            },
        };
        node.hotkey = new_hotkey;
        self.store_node(subnet_id, subnet_node_id, node);
    }

    /// Moves an active node one tier up, effective from `start_epoch`; false when no active
    /// node has that id.
    pub fn graduate_class(&mut self, subnet_id: u32, subnet_node_id: u32, start_epoch: u32) -> (r: bool)
        requires
            old(self).wf(),
        ensures
            final(self).wf(),
            r == old(self).subnet_nodes@.contains_key((subnet_id, subnet_node_id)),
            !r ==> *final(self) == *old(self),
            r ==> {
                let n = old(self).subnet_nodes@[(subnet_id, subnet_node_id)];
                final(self).subnet_nodes@ == old(self).subnet_nodes@.insert(
                    (subnet_id, subnet_node_id),
                    SubnetNodeView {
                        classification: SubnetNodeClassification {
                            node_class: spec_next_class(n.classification.node_class),
                            start_epoch,
                        },
                        ..n
                    },
                )
            },
            final(self).registered_subnet_nodes == old(self).registered_subnet_nodes,
            final(self).ids == old(self).ids,
            final(self).same_outside_nodes_and_ids(old(self)),
    {
        let mut node = match self.subnet_nodes.get(&(subnet_id, subnet_node_id)) {
            Some(n) => n.clone(),
            None => {
                return false;
            },
        };
        node.classification = SubnetNodeClassification {
            node_class: node.classification.node_class.next(),
            start_epoch,
        };
        self.subnet_nodes.insert((subnet_id, subnet_node_id), node);
        true
    }

    /// The active nodes of subnet `s` that hold `classification` by `subnet_epoch`.
    pub fn get_active_classified_subnet_nodes(
        &self,
        subnet_id: u32,
        classification: &SubnetNodeClass,
        subnet_epoch: u32,
    ) -> (r: Vec<SubnetNode>)
        requires
            self.wf(),
        ensures
            node_views(r@) == classified_upto(
                self.subnet_nodes,
                self.subnet_nodes.spec_len() as int,
                subnet_id,
                *classification,
                subnet_epoch,
            ),
    {
        let mut r: Vec<SubnetNode> = Vec::new();
        let n = self.subnet_nodes.len();
        let mut i: usize = 0;
        while i < n
            invariant
                self.wf(),
                n == self.subnet_nodes.spec_len(),
                i <= n,
                node_views(r@) == classified_upto(
                    self.subnet_nodes,
                    i as int,
                    subnet_id,
                    *classification,
                    subnet_epoch,
                ),
            decreases n - i,
        {
            let k = self.subnet_nodes.key_at(i);
            let v = self.subnet_nodes.value_at(i);
            if k.0 == subnet_id && v.has_classification(classification, subnet_epoch) {
                let c = v.clone();
                let ghost before = r@;
                r.push(c);
                assert(node_views(r@) =~= node_views(before).push(c@));
            }
            i = i + 1;
        }
        r
    }

    /// The operating keys of the active nodes of subnet `s` that hold `classification` by
    /// `subnet_epoch`.
    pub fn get_classified_hotkeys(
        &self,
        subnet_id: u32,
        classification: &SubnetNodeClass,
        subnet_epoch: u32,
    ) -> (r: Vec<AccountId>)
        requires
            self.wf(),
        ensures
            r@ == classified_upto(
                self.subnet_nodes,
                self.subnet_nodes.spec_len() as int,
                subnet_id,
                *classification,
                subnet_epoch,
            ).map_values(|n: SubnetNodeView| n.hotkey),
    {
        let mut r: Vec<AccountId> = Vec::new();
        let n = self.subnet_nodes.len();
        let mut i: usize = 0;
        while i < n
            invariant
                self.wf(),
                n == self.subnet_nodes.spec_len(),
                i <= n,
                r@ == classified_upto(
                    self.subnet_nodes,
                    i as int,
                    subnet_id,
                    *classification,
                    subnet_epoch,
                ).map_values(|n: SubnetNodeView| n.hotkey),
            decreases n - i,
        {
            let k = self.subnet_nodes.key_at(i);
            let v = self.subnet_nodes.value_at(i);
            if k.0 == subnet_id && v.has_classification(classification, subnet_epoch) {
                r.push(v.hotkey);
                assert(r@ =~= classified_upto(
                    self.subnet_nodes,
                    i as int + 1,
                    subnet_id,
                    *classification,
                    subnet_epoch,
                ).map_values(|n: SubnetNodeView| n.hotkey));
            }
            i = i + 1;
        }
        r
    }

    /// The active nodes of subnet `s` that hold `classification` by `subnet_epoch`, by id.
    pub fn get_classified_subnet_nodes_map(
        &self,
        subnet_id: u32,
        classification: &SubnetNodeClass,
        subnet_epoch: u32,
    ) -> (r: Table<u32, SubnetNode>)
        requires
            self.wf(),
        ensures
            r.wf(),
            forall|id: u32| #[trigger] r@.contains_key(id) == (self.subnet_nodes@.contains_key((subnet_id, id))
                && self.subnet_nodes@[(subnet_id, id)].has_classification(*classification, subnet_epoch)),
            forall|id: u32| #[trigger] r@.contains_key(id) ==> r@[id] == self.subnet_nodes@[(subnet_id, id)],
    {
        let mut r: Table<u32, SubnetNode> = Table::new();
        let n = self.subnet_nodes.len();
        let mut i: usize = 0;
        while i < n
            invariant
                self.wf(),
                r.wf(),
                n == self.subnet_nodes.spec_len(),
                i <= n,
                forall|i: int| 0 <= i < self.subnet_nodes.spec_len() ==> #[trigger] self.subnet_nodes@.contains_key(
                    self.subnet_nodes.key_view_at(i),
                ) && self.subnet_nodes@[self.subnet_nodes.key_view_at(i)] == self.subnet_nodes.value_view_at(i),
                forall|id: u32| #[trigger] r@.contains_key(id) == (exists|j: int| 0 <= j < i
                    && #[trigger] self.subnet_nodes.key_view_at(j) == (subnet_id, id)
                    && self.subnet_nodes.value_view_at(j).has_classification(*classification, subnet_epoch)),
                forall|id: u32| #[trigger] r@.contains_key(id) ==> r@[id] == self.subnet_nodes@[(subnet_id, id)],
            decreases n - i,
        {
            let k = self.subnet_nodes.key_at(i);
            let v = self.subnet_nodes.value_at(i);
            if k.0 == subnet_id && v.has_classification(classification, subnet_epoch) {
                let ghost before = r@;
                assert(self.subnet_nodes@.contains_key(self.subnet_nodes.key_view_at(i as int)));
                r.insert(k.1, v.clone());
                proof {
                    assert forall|id: u32| #[trigger] r@.contains_key(id) == (exists|j: int| 0 <= j < i + 1
                        && #[trigger] self.subnet_nodes.key_view_at(j) == (subnet_id, id)
                        && self.subnet_nodes.value_view_at(j).has_classification(*classification, subnet_epoch)) by {
                        if id == k.1 {
                            assert(self.subnet_nodes.key_view_at(i as int) == (subnet_id, id));
                        }
                    }
                }
            } else {
                proof {
                    assert forall|id: u32| #[trigger] r@.contains_key(id) == (exists|j: int| 0 <= j < i + 1
                        && #[trigger] self.subnet_nodes.key_view_at(j) == (subnet_id, id)
                        && self.subnet_nodes.value_view_at(j).has_classification(*classification, subnet_epoch)) by {
                        if exists|j: int| 0 <= j < i + 1
                            && #[trigger] self.subnet_nodes.key_view_at(j) == (subnet_id, id)
                            && self.subnet_nodes.value_view_at(j).has_classification(*classification, subnet_epoch) {
                            let j = choose|j: int| 0 <= j < i + 1
                                && #[trigger] self.subnet_nodes.key_view_at(j) == (subnet_id, id)
                                && self.subnet_nodes.value_view_at(j).has_classification(*classification, subnet_epoch);
                            assert(j != i);
                        }
                    }
                }
            }
            i = i + 1;
        }
        proof {
            assert forall|id: u32| #[trigger] r@.contains_key(id) == (self.subnet_nodes@.contains_key((subnet_id, id))
                && self.subnet_nodes@[(subnet_id, id)].has_classification(*classification, subnet_epoch)) by {
                if self.subnet_nodes@.contains_key((subnet_id, id)) {
                    let j = choose|j: int| 0 <= j < self.subnet_nodes.spec_len() && #[trigger] self.subnet_nodes.key_view_at(j) == (subnet_id, id);
                    assert(self.subnet_nodes.key_view_at(j) == (subnet_id, id));
                }
            }
        }
        r
    }

    /// What the registry knows of active node `id` of subnet `s`.
    pub open spec fn spec_node_info(&self, s: u32, id: u32) -> SubnetNodeInfoView {
        let n = self.subnet_nodes@[(s, id)];
        let coldkey = value_or(self.keys.hotkey_owner@, n.hotkey, 0u64);
        SubnetNodeInfoView {
            subnet_id: s,
            subnet_node_id: id,
            coldkey,
            node: n,
            coldkey_active_nodes: value_or(self.keys.coldkey_active_nodes@, coldkey, 0u32),
            subnet_node_reputation: value_or(self.stats.reputation@, (s, id), 0u128),
            node_slot_index: if self.election.is_member(s, id) {
                Some(self.election.slot_index@[slot_key(s, id)])
            } else {
                None
            },
            consecutive_idle_epochs: value_or(self.stats.idle_epochs@, (s, id), 0u32),
            consecutive_included_epochs: value_or(self.stats.included_epochs@, (s, id), 0u32),
        }
    }

    /// What the registry knows of the active nodes of subnet `s` that hold `classification`
    /// by `subnet_epoch`.
    pub fn get_classified_subnet_nodes_info(
        &self,
        subnet_id: u32,
        classification: &SubnetNodeClass,
        subnet_epoch: u32,
    ) -> (r: Vec<SubnetNodeInfo>)
        requires
            self.wf(),
        ensures
            info_views(r@) == classified_ids_upto(
                self.subnet_nodes,
                self.subnet_nodes.spec_len() as int,
                subnet_id,
                *classification,
                subnet_epoch,
            ).map_values(|id: u32| self.spec_node_info(subnet_id, id)),
    {
        let mut r: Vec<SubnetNodeInfo> = Vec::new();
        let n = self.subnet_nodes.len();
        let mut i: usize = 0;
        while i < n
            invariant
                self.wf(),
                n == self.subnet_nodes.spec_len(),
                i <= n,
                forall|i: int| 0 <= i < self.subnet_nodes.spec_len() ==> #[trigger] self.subnet_nodes@.contains_key(
                    self.subnet_nodes.key_view_at(i),
                ) && self.subnet_nodes@[self.subnet_nodes.key_view_at(i)] == self.subnet_nodes.value_view_at(i),
                info_views(r@) == classified_ids_upto(
                    self.subnet_nodes,
                    i as int,
                    subnet_id,
                    *classification,
                    subnet_epoch,
                ).map_values(|id: u32| self.spec_node_info(subnet_id, id)),
            decreases n - i,
        {
            let k = self.subnet_nodes.key_at(i);
            let v = self.subnet_nodes.value_at(i);
            if k.0 == subnet_id && v.has_classification(classification, subnet_epoch) {
                let id = k.1;
                assert(self.subnet_nodes@.contains_key(self.subnet_nodes.key_view_at(i as int)));
                let coldkey = self.keys.hotkey_owner.get_or_zero(&v.hotkey);
                let slot = self.election.slot_of(subnet_id, id);
                let info = SubnetNodeInfo {
                    subnet_id,
                    subnet_node_id: id,
                    coldkey,
                    node: v.clone(),
                    coldkey_active_nodes: self.keys.coldkey_active_nodes.get_or_zero(&coldkey),
                    subnet_node_reputation: self.stats.reputation.get_or_zero(&(subnet_id, id)),
                    node_slot_index: slot,
                    consecutive_idle_epochs: self.stats.idle_epochs.get_or_zero(&(subnet_id, id)),
                    consecutive_included_epochs: self.stats.included_epochs.get_or_zero(&(subnet_id, id)),
                };
                assert(info@ == self.spec_node_info(subnet_id, id));
                let ghost before = r@;
                r.push(info);
                assert(info_views(r@) =~= info_views(before).push(info@));
                assert(classified_ids_upto(self.subnet_nodes, i as int + 1, subnet_id, *classification, subnet_epoch)
                    == classified_ids_upto(self.subnet_nodes, i as int, subnet_id, *classification, subnet_epoch).push(id));
                assert(info_views(r@) =~= classified_ids_upto(
                    self.subnet_nodes,
                    i as int + 1,
                    subnet_id,
                    *classification,
                    subnet_epoch,
                ).map_values(|id: u32| self.spec_node_info(subnet_id, id)));
            }
            i = i + 1;
        }
        r
    }

    /// Drops the coldkey's entries for subnets that no longer exist.
    pub fn clean_coldkey_subnet_nodes(&mut self, coldkey: AccountId)
        requires
            old(self).wf(),
        ensures
            final(self).wf(),
            forall|k: (AccountId, u32)| #[trigger] final(self).keys.coldkey_subnet_nodes@.contains_key(k)
                == (old(self).keys.coldkey_subnet_nodes@.contains_key(k)
                && !(k.0 == coldkey && !old(self).subnets@.contains_key(k.1))),
            forall|k: (AccountId, u32)| #[trigger] final(self).keys.coldkey_subnet_nodes@.contains_key(k)
                ==> final(self).keys.coldkey_subnet_nodes@[k] == old(self).keys.coldkey_subnet_nodes@[k],
            final(self).keys.hotkey_subnet_node_id == old(self).keys.hotkey_subnet_node_id,
            final(self).keys.subnet_node_id_hotkey == old(self).keys.subnet_node_id_hotkey,
            final(self).keys.hotkey_owner == old(self).keys.hotkey_owner,
            final(self).keys.coldkey_active_nodes == old(self).keys.coldkey_active_nodes,
            final(self).subnet_nodes == old(self).subnet_nodes,
            final(self).registered_subnet_nodes == old(self).registered_subnet_nodes,
            final(self).ids == old(self).ids,
            final(self).stats == old(self).stats,
            final(self).election == old(self).election,
            final(self).burn == old(self).burn,
            final(self).stake == old(self).stake,
            final(self).subnets == old(self).subnets,
            final(self).config == old(self).config,
    {
        let ghost m0 = self.keys.coldkey_subnet_nodes@;
        let n = self.keys.coldkey_subnet_nodes.len();
        let mut stale: Vec<u32> = Vec::new();
        let mut i: usize = 0;
        while i < n
            invariant
                self.wf(),
                n == self.keys.coldkey_subnet_nodes.spec_len(),
                i <= n,
                forall|j: int| 0 <= j < stale@.len() ==> !self.subnets@.contains_key(#[trigger] stale@[j]),
                forall|j: int|
                    0 <= j < i && (#[trigger] self.keys.coldkey_subnet_nodes.key_view_at(j)).0 == coldkey
                        && !self.subnets@.contains_key(self.keys.coldkey_subnet_nodes.key_view_at(j).1)
                        ==> stale@.contains(self.keys.coldkey_subnet_nodes.key_view_at(j).1),
            decreases n - i,
        {
            let k = self.keys.coldkey_subnet_nodes.key_at(i);
            let ghost before = stale@;
            if k.0 == coldkey && !self.subnets.contains_key(&k.1) {
                stale.push(k.1);
                assert(stale@[stale@.len() - 1] == k.1);
            }
            proof {
                assert forall|j: int|
                    0 <= j < i + 1 && (#[trigger] self.keys.coldkey_subnet_nodes.key_view_at(j)).0 == coldkey
                        && !self.subnets@.contains_key(self.keys.coldkey_subnet_nodes.key_view_at(j).1)
                        implies stale@.contains(self.keys.coldkey_subnet_nodes.key_view_at(j).1) by {
                    let x = self.keys.coldkey_subnet_nodes.key_view_at(j).1;
                    if j < i {
                        let w = choose|w: int| 0 <= w < before.len() && before[w] == x;
                        assert(stale@[w] == x);
                    }
                }
            }
            i = i + 1;
        }
        let mut j: usize = 0;
        while j < stale.len()
            invariant
                self.wf(),
                j <= stale@.len(),
                forall|w: int| 0 <= w < stale@.len() ==> !self.subnets@.contains_key(#[trigger] stale@[w]),
                forall|k: (AccountId, u32)| #[trigger] self.keys.coldkey_subnet_nodes@.contains_key(k)
                    == (m0.contains_key(k) && !(k.0 == coldkey && stale@.subrange(0, j as int).contains(k.1))),
                forall|k: (AccountId, u32)| #[trigger] self.keys.coldkey_subnet_nodes@.contains_key(k)
                    ==> self.keys.coldkey_subnet_nodes@[k] == m0[k],
                self.keys.hotkey_subnet_node_id == old(self).keys.hotkey_subnet_node_id,
                self.keys.subnet_node_id_hotkey == old(self).keys.subnet_node_id_hotkey,
                self.keys.hotkey_owner == old(self).keys.hotkey_owner,
                self.keys.coldkey_active_nodes == old(self).keys.coldkey_active_nodes,
                self.subnet_nodes == old(self).subnet_nodes,
                self.registered_subnet_nodes == old(self).registered_subnet_nodes,
                self.ids == old(self).ids,
                self.stats == old(self).stats,
                self.election == old(self).election,
                self.burn == old(self).burn,
                self.stake == old(self).stake,
                self.subnets == old(self).subnets,
                self.config == old(self).config,
                self.block == old(self).block,
                self.elected_validators == old(self).elected_validators,
            decreases stale@.len() - j,
        {
            let s = stale[j];
            let ghost pre = self.keys.coldkey_subnet_nodes@;
            let _ = self.keys.coldkey_subnet_nodes.remove(&(coldkey, s));
            proof {
                let lo = stale@.subrange(0, j as int);
                let hi = stale@.subrange(0, j as int + 1);
                assert(hi =~= lo.push(s));
                assert forall|x: u32| hi.contains(x) == (lo.contains(x) || x == s) by {
                    if hi.contains(x) && x != s {
                        let w = choose|w: int| 0 <= w < hi.len() && hi[w] == x;
                        assert(lo[w] == x);
                    }
                    if lo.contains(x) {
                        let w = choose|w: int| 0 <= w < lo.len() && lo[w] == x;
                        assert(hi[w] == x);
                    }
                    if x == s {
                        assert(hi[j as int] == x);
                    }
                }
            }
            j = j + 1;
        }
        proof {
            assert(stale@.subrange(0, stale@.len() as int) =~= stale@);
            assert forall|k: (AccountId, u32)| #[trigger] self.keys.coldkey_subnet_nodes@.contains_key(k)
                == (m0.contains_key(k) && !(k.0 == coldkey && !self.subnets@.contains_key(k.1))) by {
                if m0.contains_key(k) && k.0 == coldkey && !self.subnets@.contains_key(k.1) {
                    let w = choose|w: int| 0 <= w < n && #[trigger] old(self).keys.coldkey_subnet_nodes.key_view_at(w) == k;
                    assert(old(self).keys.coldkey_subnet_nodes.key_view_at(w) == k);
                    assert(stale@.contains(k.1));
                }
                if stale@.contains(k.1) {
                    let w = choose|w: int| 0 <= w < stale@.len() && stale@[w] == k.1;
                    assert(!self.subnets@.contains_key(stale@[w]));
                }
            }
        }
    }
}

} // verus!
