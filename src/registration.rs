use vstd::prelude::*;

use crate::election::count_of;
use crate::node_updates::spec_validate_delegate_account;
use crate::pallet::Pallet;
use crate::registry::{put_key, swap_peer_claims};
use crate::table::{bytes_clone, value_or, Table};
use crate::types::{
    opt_bytes_view, opt_peer_clone, opt_peer_view, AccountId, DelegateAccount, PalletError, PeerInfo,
    PeerInfoView, SubnetNode, SubnetNodeClass, SubnetNodeClassification, SubnetNodeView,
};

verus! {

/// The queue of subnet `s`, empty when it has none.
pub open spec fn queue_of(m: Map<u32, Seq<u32>>, s: u32) -> Seq<u32> {
    if m.contains_key(s) {
        m[s]
    } else {
        Seq::empty()
    }
}

/// `v + 1`, not above `u32::MAX`.
pub open spec fn inc(v: u32) -> u32 {
    if v == u32::MAX {
        u32::MAX
    } else {
        (v + 1) as u32
    }
}

/// The verdict on an optional peer info: none is always accepted.
pub open spec fn check_opt_peer(p: &Pallet, s: u32, id: u32, o: Option<PeerInfoView>) -> Result<(), PalletError> {
    match o {
        Some(i) => p.spec_validate_peer_info(s, id, 0, i),
        None => Ok(()),
    }
}

fn push_to_list(t: &mut Table<u32, Vec<u32>>, s: u32, x: u32)
    requires
        old(t).wf(),
    ensures
        final(t).wf(),
        final(t)@ == old(t)@.insert(s, queue_of(old(t)@, s).push(x)),
{
    let mut l = match t.remove(&s) {
        Some(l) => l,
        None => Vec::new(),
    };
    l.push(x);
    t.insert(s, l);
}

fn increment(t: &mut Table<u32, u32>, s: u32)
    requires
        old(t).wf(),
    ensures
        final(t).wf(),
        final(t)@ == old(t)@.insert(s, inc(count_of(old(t)@, s))),
{
    let v = t.get_or_zero(&s);
    t.insert(s, v.saturating_add(1));
}

impl Pallet {
    /// The verdict on a registration: the delegate account, a free node id, each peer info
    /// and the unique tag.
    pub open spec fn spec_check_registration(
        &self,
        coldkey: AccountId,
        s: u32,
        id: u32,
        hotkey: AccountId,
        peer_info: PeerInfoView,
        bootnode: Option<PeerInfoView>,
        client: Option<PeerInfoView>,
        unique: Option<Seq<u8>>,
        delegate_account: Option<DelegateAccount>,
    ) -> Result<(), PalletError> {
        let d = match delegate_account {
            Some(d) => spec_validate_delegate_account(d, hotkey, coldkey),
            None => Ok(()),
        };
        if d is Err {
            d
        } else if self.node_of(s, id) is Some {
            Err(PalletError::SubnetNodeIdTaken)
        } else if self.spec_validate_peer_info(s, id, 0, peer_info) is Err {
            self.spec_validate_peer_info(s, id, 0, peer_info)
        } else if check_opt_peer(self, s, id, bootnode) is Err {
            check_opt_peer(self, s, id, bootnode)
        } else if check_opt_peer(self, s, id, client) is Err {
            check_opt_peer(self, s, id, client)
        } else if unique matches Some(u) && self.ids.unique_params@.contains_key((s, u)) {
            Err(PalletError::UniqueParameterTaken)
        } else {
            Ok(())
        }
    }

    /// Registers node `subnet_node_id` of subnet `subnet_id`, owned by `coldkey` and operated
    /// by `hotkey`. On success the node waits in the registered partition and in its subnet's
    /// queue, and claims its identities, addresses and unique tag.
    pub fn register_subnet_node(
        &mut self,
        coldkey: AccountId,
        subnet_id: u32,
        subnet_node_id: u32,
        hotkey: AccountId,
        peer_info: PeerInfo,
        bootnode_peer_info: Option<PeerInfo>,
        client_peer_info: Option<PeerInfo>,
        unique: Option<Vec<u8>>,
        non_unique: Option<Vec<u8>>,
        delegate_account: Option<DelegateAccount>,
    ) -> (r: Result<(), PalletError>)
        requires
            old(self).wf(),
        ensures
            final(self).wf(),
            match old(self).spec_check_registration(
                coldkey,
                subnet_id,
                subnet_node_id,
                hotkey,
                peer_info@,
                opt_peer_view(bootnode_peer_info),
                opt_peer_view(client_peer_info),
                opt_bytes_view(unique),
                delegate_account,
            ) {
                Err(e) => r == Err::<(), PalletError>(e) && *final(self) == *old(self),
                Ok(_) => {
                    let s = subnet_id;
                    let id = subnet_node_id;
                    let p = swap_peer_claims(old(self).ids.peer_ids@, old(self).ids.multiaddrs@, s, None, Some(peer_info@), id);
                    let b = swap_peer_claims(old(self).ids.bootnode_peer_ids@, p.1, s, None, opt_peer_view(bootnode_peer_info), id);
                    let c = swap_peer_claims(old(self).ids.client_peer_ids@, b.1, s, None, opt_peer_view(client_peer_info), id);
                    &&& r == Ok::<(), PalletError>(())
                    &&& final(self).registered_subnet_nodes@ == old(self).registered_subnet_nodes@.insert(
                        (s, id),
                        SubnetNodeView {
                            id,
                            hotkey,
                            peer_info: peer_info@,
                            bootnode_peer_info: opt_peer_view(bootnode_peer_info),
                            client_peer_info: opt_peer_view(client_peer_info),
                            delegate_account,
                            classification: SubnetNodeClassification {
                                node_class: SubnetNodeClass::Registered,
                                start_epoch: 0,
                            },
                            delegate_reward_rate: 0,
                            last_delegate_reward_rate_update: old(self).block,
                            unique: opt_bytes_view(unique),
                            non_unique: opt_bytes_view(non_unique),
                        },
                    )
                    &&& final(self).subnet_nodes == old(self).subnet_nodes
                    &&& final(self).ids.peer_ids@ == p.0
                    &&& final(self).ids.bootnode_peer_ids@ == b.0
                    &&& final(self).ids.client_peer_ids@ == c.0
                    &&& final(self).ids.multiaddrs@ == c.1
                    &&& final(self).ids.unique_params@ == put_key(old(self).ids.unique_params@, s, opt_bytes_view(unique), id)
                    &&& final(self).ids.overwatch_peer_ids == old(self).ids.overwatch_peer_ids
                    &&& final(self).keys.hotkey_subnet_node_id@ == old(self).keys.hotkey_subnet_node_id@.insert((s, hotkey), id)
                    &&& final(self).keys.subnet_node_id_hotkey@ == old(self).keys.subnet_node_id_hotkey@.insert((s, id), hotkey)
                    &&& final(self).keys.hotkey_owner@ == old(self).keys.hotkey_owner@.insert(hotkey, coldkey)
                    &&& final(self).stats.queue@ == old(self).stats.queue@.insert(s, queue_of(old(self).stats.queue@, s).push(id))
                    &&& final(self).stats.total_subnet_nodes@ == old(self).stats.total_subnet_nodes@.insert(
                        s, inc(count_of(old(self).stats.total_subnet_nodes@, s)))
                    &&& final(self).stats.total_nodes == inc(old(self).stats.total_nodes)
                    &&& final(self).burn.registrations@ == old(self).burn.registrations@.insert(
                        s, inc(value_or(old(self).burn.registrations@, s, 0u32)))
                    &&& final(self).election == old(self).election
                    &&& final(self).stake == old(self).stake
                    &&& final(self).config == old(self).config
                    &&& final(self).block == old(self).block
                },
            },
    {
        let s = subnet_id;
        let id = subnet_node_id;
        if let Some(d) = &delegate_account {
            Self::validate_delegate_account(d, &hotkey, &coldkey)?;
        }
        if self.node_ref(s, id).is_some() {
            return Err(PalletError::SubnetNodeIdTaken);
        }
        self.validate_peer_info(s, id, 0, &peer_info)?;
        if let Some(b) = &bootnode_peer_info {
            self.validate_peer_info(s, id, 0, b)?;
        }
        if let Some(c) = &client_peer_info {
            self.validate_peer_info(s, id, 0, c)?;
        }
        if let Some(u) = &unique {
            if self.ids.unique_params.contains_key(&(s, bytes_clone(u))) {
                return Err(PalletError::UniqueParameterTaken);
            }
        }
        crate::registry::swap_claims(
            &mut self.ids.peer_ids,
            &mut self.ids.multiaddrs,
            s,
            &None,
            &Some(peer_info.clone()),
            id,
        );
        crate::registry::swap_claims(
            &mut self.ids.bootnode_peer_ids,
            &mut self.ids.multiaddrs,
            s,
            &None,
            &opt_peer_clone(&bootnode_peer_info),
            id,
        );
        crate::registry::swap_claims(
            &mut self.ids.client_peer_ids,
            &mut self.ids.multiaddrs,
            s,
            &None,
            &opt_peer_clone(&client_peer_info),
            id,
        );
        crate::registry::put_entry(&mut self.ids.unique_params, s, &unique, id);
        self.keys.hotkey_subnet_node_id.insert((s, hotkey), id);
        self.keys.subnet_node_id_hotkey.insert((s, id), hotkey);
        self.keys.hotkey_owner.insert(hotkey, coldkey);
        let node = SubnetNode {
            id,
            hotkey,
            peer_info,
            bootnode_peer_info,
            client_peer_info,
            delegate_account,
            classification: SubnetNodeClassification {
                node_class: SubnetNodeClass::Registered,
                start_epoch: 0,
            },
            delegate_reward_rate: 0,
            last_delegate_reward_rate_update: self.block,
            unique,
            non_unique,
        };
        self.registered_subnet_nodes.insert((s, id), node);
        push_to_list(&mut self.stats.queue, s, id);
        increment(&mut self.stats.total_subnet_nodes, s);
        self.stats.total_nodes = self.stats.total_nodes.saturating_add(1);
        let _ = self.record_registration(s);
        Ok(())
    }
}

} // verus!
