use vstd::prelude::*;

use crate::election::{count_of, list_of};
use crate::pallet::Pallet;
use crate::registry::{drop_key, peer_id_of, swap_peer_claims};
use crate::table::{value_or, Table};
use crate::types::{AccountId, SubnetNode, SubnetNodeClass, SubnetNodeView};

verus! {

/// `s` with every occurrence of `x` taken out, order kept.
pub open spec fn without(s: Seq<u32>, x: u32) -> Seq<u32>
    decreases s.len(),
{
    if s.len() == 0 {
        s
    } else {
        let r = without(s.drop_last(), x);
        if s.last() == x {
            r
        } else {
            r.push(s.last())
        }
    }
}

/// `v` with every occurrence of `x` taken out, order kept.
pub fn vec_without(v: &Vec<u32>, x: u32) -> (r: Vec<u32>)
    ensures
        r@ == without(v@, x),
{
    let mut r: Vec<u32> = Vec::new();
    let mut i: usize = 0;
    while i < v.len()
        invariant
            i <= v@.len(),
            r@ == without(v@.subrange(0, i as int), x),
        decreases v@.len() - i,
    {
        let ghost pre = v@.subrange(0, i as int);
        assert(v@.subrange(0, i as int + 1).drop_last() =~= pre);
        if v[i] != x {
            r.push(v[i]);
        }
        i = i + 1;
    }
    assert(v@.subrange(0, v@.len() as int) =~= v@);
    r
}

/// `v - 1`, not below zero.
pub open spec fn dec(v: u32) -> u32 {
    if v == 0 {
        0
    } else {
        (v - 1) as u32
    }
}

/// A per-subnet list with `x` taken out, where the subnet has one.
pub open spec fn list_without(m: Map<u32, Seq<u32>>, s: u32, x: u32) -> Map<u32, Seq<u32>> {
    if m.contains_key(s) {
        m.insert(s, without(m[s], x))
    } else {
        m
    }
}

/// The coldkey's set of nodes in subnet `s` without `x`; the entry goes when it empties.
pub open spec fn owned_without(
    m: Map<(AccountId, u32), Seq<u32>>,
    c: AccountId,
    s: u32,
    x: u32,
) -> Map<(AccountId, u32), Seq<u32>> {
    if m.contains_key((c, s)) {
        if without(m[(c, s)], x).len() == 0 {
            m.remove((c, s))
        } else {
            m.insert((c, s), without(m[(c, s)], x))
        }
    } else {
        m
    }
}

fn drop_from_list(t: &mut Table<u32, Vec<u32>>, s: u32, x: u32)
    requires
        old(t).wf(),
    ensures
        final(t).wf(),
        final(t)@ == list_without(old(t)@, s, x),
{
    let l = match t.get(&s) {
        Some(l) => vec_without(l, x),
        None => {
            return ;
        },
    };
    t.insert(s, l);
}

fn decrement(t: &mut Table<u32, u32>, s: u32)
    requires
        old(t).wf(),
    ensures
        final(t).wf(),
        final(t)@ == old(t)@.insert(s, dec(count_of(old(t)@, s))),
{
    let v = t.get_or_zero(&s);
    t.insert(s, if v == 0 { 0 } else { v - 1 });
}

impl Pallet {
    /// The teardown of node `id` of subnet `s`, whose record was `n`, as seen in every index
    /// but the node partitions, the election slots and the queues.
    pub open spec fn teardown(&self, old: &Pallet, s: u32, id: u32, n: SubnetNodeView) -> bool {
        let coldkey = value_or(old.keys.hotkey_owner@, n.hotkey, 0u64);
        let p = swap_peer_claims(
            old.ids.peer_ids@,
            old.ids.multiaddrs@,
            s,
            Some(n.peer_info),
            None,
            id,
        );
        let b = swap_peer_claims(
            old.ids.bootnode_peer_ids@,
            p.1,
            s,
            n.bootnode_peer_info,
            None,
            id,
        );
        let c = swap_peer_claims(old.ids.client_peer_ids@, b.1, s, n.client_peer_info, None, id);
        &&& self.ids.unique_params@ == drop_key(old.ids.unique_params@, s, n.unique)
        &&& self.ids.peer_ids@ == p.0
        &&& self.ids.bootnode_peer_ids@ == b.0
        &&& self.ids.client_peer_ids@ == c.0
        &&& self.ids.multiaddrs@ == c.1
        &&& self.ids.overwatch_peer_ids == old.ids.overwatch_peer_ids
        &&& self.keys.hotkey_subnet_node_id@ == old.keys.hotkey_subnet_node_id@.remove((s, n.hotkey))
        &&& self.keys.subnet_node_id_hotkey@ == old.keys.subnet_node_id_hotkey@.remove((s, id))
        &&& self.keys.hotkey_owner == old.keys.hotkey_owner
        &&& self.keys.coldkey_subnet_nodes@ == owned_without(
            old.keys.coldkey_subnet_nodes@,
            coldkey,
            s,
            id,
        )
        &&& self.keys.coldkey_active_nodes@ == old.keys.coldkey_active_nodes@.insert(
            coldkey,
            dec(value_or(old.keys.coldkey_active_nodes@, coldkey, 0u32)),
        )
        &&& self.stats.reputation@ == old.stats.reputation@.remove((s, id))
        &&& self.stats.idle_epochs@ == old.stats.idle_epochs@.remove((s, id))
        &&& self.stats.included_epochs@ == old.stats.included_epochs@.remove((s, id))
        &&& self.stats.total_subnet_nodes@ == old.stats.total_subnet_nodes@.insert(
            s,
            dec(count_of(old.stats.total_subnet_nodes@, s)),
        )
        &&& self.stats.total_nodes == dec(old.stats.total_nodes)
        &&& self.config == old.config
        &&& self.block == old.block
        &&& self.elected_validators == old.elected_validators
        &&& self.burn == old.burn
        &&& self.stake == old.stake
        &&& self.subnets == old.subnets
    }

    /// Adds a node to the election slots of its subnet; false when it holds one already.
    pub fn insert_node_into_election_slot(&mut self, subnet_id: u32, subnet_node_id: u32) -> (r: bool)
        requires
            old(self).wf(),
            old(self).election.total_electable < u32::MAX || old(self).election.is_member(
                subnet_id,
                subnet_node_id,
            ),
        ensures
            final(self).wf(),
            r == !old(self).election.is_member(subnet_id, subnet_node_id),
            r ==> list_of(final(self).election.slots@, subnet_id) == list_of(
                old(self).election.slots@,
                subnet_id,
            ).push(subnet_node_id),
            forall|t: u32|
                t != subnet_id ==> list_of(final(self).election.slots@, t) == list_of(
                    old(self).election.slots@,
                    t,
                ),
            r ==> final(self).election.total_electable == old(self).election.total_electable + 1,
            final(self).election.is_member(subnet_id, subnet_node_id),
            !r ==> *final(self) == *old(self),
            final(self).subnet_nodes == old(self).subnet_nodes,
            final(self).registered_subnet_nodes == old(self).registered_subnet_nodes,
            final(self).ids == old(self).ids,
            final(self).keys == old(self).keys,
            final(self).stats == old(self).stats,
    {
        self.election.insert(subnet_id, subnet_node_id)
    }

    /// Takes a node out of the election slots of its subnet; false when it holds none.
    pub fn remove_node_from_election_slot(&mut self, subnet_id: u32, subnet_node_id: u32) -> (r: bool)
        requires
            old(self).wf(),
        ensures
            final(self).wf(),
            r == old(self).election.is_member(subnet_id, subnet_node_id),
            final(self).election.removed(&old(self).election, subnet_id, subnet_node_id),
            !r ==> *final(self) == *old(self),
            final(self).subnet_nodes == old(self).subnet_nodes,
            final(self).registered_subnet_nodes == old(self).registered_subnet_nodes,
            final(self).ids == old(self).ids,
            final(self).keys == old(self).keys,
            final(self).stats == old(self).stats,
    {
        self.election.remove(subnet_id, subnet_node_id)
    }

    /// Clears every index entry that node `subnet_node_id`, whose record is `subnet_node`,
    /// holds, and lowers the node counts. The hotkey's owner is kept, so that the coldkey
    /// can still withdraw stake.
    pub fn common_remove_subnet_node(
        &mut self,
        subnet_id: u32,
        subnet_node_id: u32,
        subnet_node: SubnetNode,
    )
        requires
            old(self).wf(),
        ensures
            final(self).wf(),
            final(self).teardown(old(self), subnet_id, subnet_node_id, subnet_node@),
            final(self).subnet_nodes == old(self).subnet_nodes,
            final(self).registered_subnet_nodes == old(self).registered_subnet_nodes,
            final(self).election == old(self).election,
            final(self).stats.queue == old(self).stats.queue,
            final(self).stats.emergency_validators == old(self).stats.emergency_validators,
            final(self).stats.total_active_subnet_nodes == old(self).stats.total_active_subnet_nodes,
            final(self).stats.total_active_nodes == old(self).stats.total_active_nodes,
    {
        let s = subnet_id;
        let id = subnet_node_id;
        let hotkey = subnet_node.hotkey;
        crate::registry::drop_entry(&mut self.ids.unique_params, s, &subnet_node.unique);
        crate::registry::swap_claims(
            &mut self.ids.peer_ids,
            &mut self.ids.multiaddrs,
            s,
            &Some(subnet_node.peer_info),
            &None,
            id,
        );
        crate::registry::swap_claims(
            &mut self.ids.bootnode_peer_ids,
            &mut self.ids.multiaddrs,
            s,
            &subnet_node.bootnode_peer_info,
            &None,
            id,
        );
        crate::registry::swap_claims(
            &mut self.ids.client_peer_ids,
            &mut self.ids.multiaddrs,
            s,
            &subnet_node.client_peer_info,
            &None,
            id,
        );
        let _ = self.keys.hotkey_subnet_node_id.remove(&(s, hotkey));
        let _ = self.keys.subnet_node_id_hotkey.remove(&(s, id));
        let _ = self.stats.reputation.remove(&(s, id));
        let _ = self.stats.idle_epochs.remove(&(s, id));
        let _ = self.stats.included_epochs.remove(&(s, id));
        let coldkey = self.keys.hotkey_owner.get_or_zero(&hotkey);
        let owned = match self.keys.coldkey_subnet_nodes.get(&(coldkey, s)) {
            Some(l) => Some(vec_without(l, id)),
            None => None,
        };
        if let Some(l) = owned {
            if l.len() == 0 {
                let _ = self.keys.coldkey_subnet_nodes.remove(&(coldkey, s));
            } else {
                self.keys.coldkey_subnet_nodes.insert((coldkey, s), l);
            }
        }
        let active = self.keys.coldkey_active_nodes.get_or_zero(&coldkey);
        self.keys.coldkey_active_nodes.insert(coldkey, if active == 0 { 0 } else { active - 1 });
        decrement(&mut self.stats.total_subnet_nodes, s);
        if self.stats.total_nodes > 0 {
            self.stats.total_nodes = self.stats.total_nodes - 1;
        }
    }

    /// `self` is `old` after removing the active node `subnet_node_id` of `subnet_id`: its
    /// record and every index entry it held are gone, its election slot is freed, the active
    /// counts drop by one and it leaves the emergency validators.
    pub open spec fn active_removed(&self, old: &Pallet, subnet_id: u32, subnet_node_id: u32) -> bool {
        let n = old.subnet_nodes@[(subnet_id, subnet_node_id)];
        &&& self.subnet_nodes@ == old.subnet_nodes@.remove((subnet_id, subnet_node_id))
        &&& self.registered_subnet_nodes == old.registered_subnet_nodes
        &&& self.teardown(old, subnet_id, subnet_node_id, n)
        &&& !self.election.is_member(subnet_id, subnet_node_id)
        &&& self.election.removed(&old.election, subnet_id, subnet_node_id)
        &&& self.stats.total_active_subnet_nodes@ == old.stats.total_active_subnet_nodes@.insert(
            subnet_id, dec(count_of(old.stats.total_active_subnet_nodes@, subnet_id)))
        &&& self.stats.total_active_nodes == dec(old.stats.total_active_nodes)
        &&& self.stats.emergency_validators@ == list_without(old.stats.emergency_validators@, subnet_id, subnet_node_id)
        &&& self.stats.queue == old.stats.queue
    }

    /// `self` is `old` after removing the registered node `subnet_node_id` of `subnet_id`: its
    /// record and every index entry it held are gone and it leaves its subnet's queue.
    pub open spec fn registered_removed(&self, old: &Pallet, subnet_id: u32, subnet_node_id: u32) -> bool {
        let n = old.registered_subnet_nodes@[(subnet_id, subnet_node_id)];
        &&& self.registered_subnet_nodes@ == old.registered_subnet_nodes@.remove((subnet_id, subnet_node_id))
        &&& self.subnet_nodes == old.subnet_nodes
        &&& self.teardown(old, subnet_id, subnet_node_id, n)
        &&& self.election == old.election
        &&& self.stats.total_active_subnet_nodes == old.stats.total_active_subnet_nodes
        &&& self.stats.total_active_nodes == old.stats.total_active_nodes
        &&& self.stats.emergency_validators == old.stats.emergency_validators
        &&& self.stats.queue@ == list_without(old.stats.queue@, subnet_id, subnet_node_id)
    }

    /// Removes an active node and everything it holds: its index entries, its election slot
    /// when it is a validator, its place among emergency validators, and one from the active
    /// counts. Nothing changes when no active node has that id.
    pub fn remove_active_subnet_node(&mut self, subnet_id: u32, subnet_node_id: u32)
        requires
            old(self).wf(),
        ensures
            final(self).wf(),
            !old(self).subnet_nodes@.contains_key((subnet_id, subnet_node_id)) ==> *final(self) == *old(self),
            old(self).subnet_nodes@.contains_key((subnet_id, subnet_node_id)) ==> final(self).active_removed(
                old(self),
                subnet_id,
                subnet_node_id,
            ),
    {
        if !self.subnet_nodes.contains_key(&(subnet_id, subnet_node_id)) {
            return ;
        }
        let node = match self.subnet_nodes.remove(&(subnet_id, subnet_node_id)) {
            Some(n) => n,
            None => {
                return ;
            },
        };
        self.common_remove_subnet_node(subnet_id, subnet_node_id, node);
        let _ = self.election.remove(subnet_id, subnet_node_id);
        decrement(&mut self.stats.total_active_subnet_nodes, subnet_id);
        if self.stats.total_active_nodes > 0 {
            self.stats.total_active_nodes = self.stats.total_active_nodes - 1;
        }
        drop_from_list(&mut self.stats.emergency_validators, subnet_id, subnet_node_id);
    }

    /// Removes a registered node and everything it holds, and takes it out of the queue of
    /// its subnet. Nothing changes when no registered node has that id.
    pub fn remove_registered_subnet_node(&mut self, subnet_id: u32, subnet_node_id: u32)
        requires
            old(self).wf(),
        ensures
            final(self).wf(),
            !old(self).registered_subnet_nodes@.contains_key((subnet_id, subnet_node_id)) ==> *final(self) == *old(self),
            old(self).registered_subnet_nodes@.contains_key((subnet_id, subnet_node_id)) ==> final(self).registered_removed(
                old(self),
                subnet_id,
                subnet_node_id,
            ),
    {
        if !self.registered_subnet_nodes.contains_key(&(subnet_id, subnet_node_id)) {
            return ;
        }
        let node = match self.registered_subnet_nodes.remove(&(subnet_id, subnet_node_id)) {
            Some(n) => n,
            None => {
                return ;
            },
        };
        self.common_remove_subnet_node(subnet_id, subnet_node_id, node);
        drop_from_list(&mut self.stats.queue, subnet_id, subnet_node_id);
    }

    /// Removes a node from whichever partition holds it.
    pub fn perform_remove_subnet_node(&mut self, subnet_id: u32, subnet_node_id: u32)
        requires
            old(self).wf(),
        ensures
            final(self).wf(),
            final(self).node_of(subnet_id, subnet_node_id) is None,
            old(self).node_of(subnet_id, subnet_node_id) is None ==> *final(self) == *old(self),
            old(self).subnet_nodes@.contains_key((subnet_id, subnet_node_id)) ==> final(self).active_removed(
                old(self),
                subnet_id,
                subnet_node_id,
            ),
            !old(self).subnet_nodes@.contains_key((subnet_id, subnet_node_id))
                && old(self).registered_subnet_nodes@.contains_key((subnet_id, subnet_node_id))
                ==> final(self).registered_removed(old(self), subnet_id, subnet_node_id),
    {
        if self.subnet_nodes.contains_key(&(subnet_id, subnet_node_id)) {
            self.remove_active_subnet_node(subnet_id, subnet_node_id);
        } else if self.registered_subnet_nodes.contains_key(&(subnet_id, subnet_node_id)) {
            self.remove_registered_subnet_node(subnet_id, subnet_node_id);
        }
    }
}

} // verus!

verus! {

/// Removing a node clears its claims: when every claim on `peer` in subnet `s` came from the
/// removed node's own record, `peer` is free afterwards for any node.
pub proof fn lemma_teardown_frees_identity(
    before: &Pallet,
    after: &Pallet,
    s: u32,
    id: u32,
    n: SubnetNodeView,
    peer: Seq<u8>,
    other: u32,
    overwatch: u32,
)
    requires
        after.teardown(before, s, id, n),
        before.ids.peer_ids@.contains_key((s, peer)) ==> n.peer_info.peer_id == peer,
        before.ids.bootnode_peer_ids@.contains_key((s, peer)) ==> peer_id_of(n.bootnode_peer_info)
            == Some(peer),
        before.ids.client_peer_ids@.contains_key((s, peer)) ==> peer_id_of(n.client_peer_info)
            == Some(peer),
        !before.ids.overwatch_peer_ids@.contains_key((s, peer)),
    ensures
        after.spec_is_owner_of_peer_or_ownerless(s, other, overwatch, peer),
        !after.ids.peer_ids@.contains_key((s, n.peer_info.peer_id)),
        n.bootnode_peer_info matches Some(b) ==> !after.ids.bootnode_peer_ids@.contains_key(
            (s, b.peer_id),
        ),
        n.client_peer_info matches Some(c) ==> !after.ids.client_peer_ids@.contains_key(
            (s, c.peer_id),
        ),
{
}

} // verus!
