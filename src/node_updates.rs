use vstd::prelude::*;

use crate::math::PERCENTAGE_FACTOR;
use crate::pallet::Pallet;
use crate::registry::{swap_peer_claims, drop_key, put_key};
use crate::table::value_or;
use crate::types::{
    opt_bytes_view, opt_peer_clone, opt_peer_view, AccountId, DelegateAccount, PalletError, PeerInfo,
    SubnetNode, SubnetNodeView,
};

verus! {

/// The rules on a delegate account: not the node's operating key, not its controlling key,
/// and a rate in (0, 10^18].
pub open spec fn spec_validate_delegate_account(
    d: DelegateAccount,
    hotkey: AccountId,
    coldkey: AccountId,
) -> Result<(), PalletError> {
    if d.account_id == hotkey {
        Err(PalletError::DelegateAccountCannotBeHotkey)
    } else if d.account_id == coldkey {
        Err(PalletError::DelegateAccountCannotBeColdkey)
    } else if !(d.rate <= PERCENTAGE_FACTOR && d.rate > 0) {
        Err(PalletError::InvalidDelegateAccountRate)
    } else {
        Ok(())
    }
}

/// The delegate account that an update asks for, filling an omitted field from the current
/// delegate account.
pub open spec fn spec_delegate_account_request(
    current: Option<DelegateAccount>,
    account: Option<AccountId>,
    rate: Option<u128>,
) -> Result<DelegateAccount, PalletError> {
    if account is None && rate is None {
        Err(PalletError::InvalidDelegateAccountParameters)
    } else {
        let a = match account {
            Some(a) => Some(a),
            None => match current {
                Some(c) => Some(c.account_id),
                None => None,
            },
        };
        let r = match rate {
            Some(r) => Some(r),
            None => match current {
                Some(c) => Some(c.rate),
                None => None,
            },
        };
        if a is None {
            Err(PalletError::DelegateAccountIdIsNone)
        } else if r is None {
            Err(PalletError::DelegateAccountRateIsNone)
        } else {
            Ok(DelegateAccount { account_id: a.unwrap(), rate: r.unwrap() })
        }
    }
}

impl Pallet {
    /// Everything but the node records and the identity indexes is as in `old`.
    pub open spec fn same_outside_nodes_and_ids(&self, old: &Pallet) -> bool {
        &&& self.config == old.config
        &&& self.block == old.block
        &&& self.keys == old.keys
        &&& self.stats == old.stats
        &&& self.election == old.election
        &&& self.elected_validators == old.elected_validators
        &&& self.burn == old.burn
        &&& self.stake == old.stake
        &&& self.subnets == old.subnets
    }

    /// The controlling key of `hotkey`, zero when it has none.
    pub open spec fn spec_coldkey_of(&self, hotkey: AccountId) -> AccountId {
        value_or(self.keys.hotkey_owner@, hotkey, 0u64)
    }

    /// The record of node `id` of subnet `s`, active or registered.
    pub fn node_ref(&self, s: u32, id: u32) -> (r: Option<&SubnetNode>)
        requires
            self.wf(),
        ensures
            r.is_some() == self.node_of(s, id).is_some(),
            r.is_some() ==> r.unwrap()@ == self.node_of(s, id).unwrap(),
    {
        match self.subnet_nodes.get(&(s, id)) {
            Some(n) => Some(n),
            None => self.registered_subnet_nodes.get(&(s, id)),
        }
    }

    /// Writes `node` back into the partition that holds node `id` of subnet `s`.
    pub(crate) fn store_node(&mut self, s: u32, id: u32, node: SubnetNode)
        requires
            old(self).wf(),
            old(self).node_of(s, id).is_some(),
        ensures
            final(self).wf(),
            final(self).nodes_updated(old(self), s, id, node@),
            final(self).ids == old(self).ids,
            final(self).same_outside_nodes_and_ids(old(self)),
    {
        if self.subnet_nodes.contains_key(&(s, id)) {
            self.subnet_nodes.insert((s, id), node);
        } else {
            self.registered_subnet_nodes.insert((s, id), node);
        }
    }

    /// Replaces the primary peer info of a node, moving its identity and address claims.
    pub fn do_update_peer_id(&mut self, subnet_id: u32, subnet_node_id: u32, new_peer_info: PeerInfo) -> (r: Result<(), PalletError>)
        requires
            old(self).wf(),
        ensures
            final(self).wf(),
            match old(self).node_of(subnet_id, subnet_node_id) {
                None => r == Err::<(), PalletError>(PalletError::InvalidSubnetNodeId) && *final(self) == *old(self),
                Some(n) => match old(self).spec_validate_peer_info(subnet_id, subnet_node_id, 0, new_peer_info@) {
                    Err(e) => r == Err::<(), PalletError>(e) && *final(self) == *old(self),
                    Ok(_) => {
                        &&& r == Ok::<(), PalletError>(())
                        &&& final(self).nodes_updated(old(self), subnet_id, subnet_node_id, SubnetNodeView { peer_info: new_peer_info@, ..n })
                        &&& (final(self).ids.peer_ids@, final(self).ids.multiaddrs@) == swap_peer_claims(
                            old(self).ids.peer_ids@, old(self).ids.multiaddrs@, subnet_id,
                            Some(n.peer_info), Some(new_peer_info@), subnet_node_id)
                        &&& final(self).ids.bootnode_peer_ids == old(self).ids.bootnode_peer_ids
                        &&& final(self).ids.client_peer_ids == old(self).ids.client_peer_ids
                        &&& final(self).ids.overwatch_peer_ids == old(self).ids.overwatch_peer_ids
                        &&& final(self).ids.unique_params == old(self).ids.unique_params
                        &&& final(self).same_outside_nodes_and_ids(old(self))
                    },
                },
            },
    {
        let mut node = match self.node_ref(subnet_id, subnet_node_id) {
            Some(n) => n.clone(),
            None => {
                return Err(PalletError::InvalidSubnetNodeId);
            },
        };
        self.validate_peer_info(subnet_id, subnet_node_id, 0, &new_peer_info)?;
        let old_info = Some(node.peer_info.clone());
        let new_info = Some(new_peer_info.clone());
        crate::registry::swap_claims(
            &mut self.ids.peer_ids,
            &mut self.ids.multiaddrs,
            subnet_id,
            &old_info,
            &new_info,
            subnet_node_id,
        );
        node.peer_info = new_peer_info;
        self.store_node(subnet_id, subnet_node_id, node);
        Ok(())
    }

    /// Replaces, sets or clears the bootnode peer info of a node. A new peer info is
    /// validated before any index changes.
    pub fn do_update_bootnode_peer_id(
        &mut self,
        subnet_id: u32,
        subnet_node_id: u32,
        new_bootnode_peer_info: Option<PeerInfo>,
    ) -> (r: Result<(), PalletError>)
        requires
            old(self).wf(),
        ensures
            final(self).wf(),
            match old(self).node_of(subnet_id, subnet_node_id) {
                None => r == Err::<(), PalletError>(PalletError::InvalidSubnetNodeId) && *final(self) == *old(self),
                Some(n) => {
                    let check = match new_bootnode_peer_info {
                        Some(p) => old(self).spec_validate_peer_info(subnet_id, subnet_node_id, 0, p@),
                        None => Ok(()),
                    };
                    match check {
                        Err(e) => r == Err::<(), PalletError>(e) && *final(self) == *old(self),
                        Ok(_) => {
                            &&& r == Ok::<(), PalletError>(())
                            &&& final(self).nodes_updated(old(self), subnet_id, subnet_node_id, SubnetNodeView { bootnode_peer_info: opt_peer_view(new_bootnode_peer_info), ..n })
                            &&& (final(self).ids.bootnode_peer_ids@, final(self).ids.multiaddrs@) == swap_peer_claims(
                                old(self).ids.bootnode_peer_ids@, old(self).ids.multiaddrs@, subnet_id,
                                n.bootnode_peer_info, opt_peer_view(new_bootnode_peer_info), subnet_node_id)
                            &&& final(self).ids.peer_ids == old(self).ids.peer_ids
                            &&& final(self).ids.client_peer_ids == old(self).ids.client_peer_ids
                            &&& final(self).ids.overwatch_peer_ids == old(self).ids.overwatch_peer_ids
                            &&& final(self).ids.unique_params == old(self).ids.unique_params
                            &&& final(self).same_outside_nodes_and_ids(old(self))
                        },
                    }
                },
            },
    {
        let mut node = match self.node_ref(subnet_id, subnet_node_id) {
            Some(n) => n.clone(),
            None => {
                return Err(PalletError::InvalidSubnetNodeId);
            },
        };
        if let Some(p) = &new_bootnode_peer_info {
            self.validate_peer_info(subnet_id, subnet_node_id, 0, p)?;
        }
        let new_info = opt_peer_clone(&new_bootnode_peer_info);
        crate::registry::swap_claims(
            &mut self.ids.bootnode_peer_ids,
            &mut self.ids.multiaddrs,
            subnet_id,
            &node.bootnode_peer_info,
            &new_info,
            subnet_node_id,
        );
        node.bootnode_peer_info = new_bootnode_peer_info;
        self.store_node(subnet_id, subnet_node_id, node);
        Ok(())
    }

    /// Replaces, sets or clears the client peer info of a node. A new peer info is validated
    /// before any index changes.
    pub fn do_update_client_peer_id(
        &mut self,
        subnet_id: u32,
        subnet_node_id: u32,
        new_peer_info: Option<PeerInfo>,
    ) -> (r: Result<(), PalletError>)
        requires
            old(self).wf(),
        ensures
            final(self).wf(),
            match old(self).node_of(subnet_id, subnet_node_id) {
                None => r == Err::<(), PalletError>(PalletError::InvalidSubnetNodeId) && *final(self) == *old(self),
                Some(n) => {
                    let check = match new_peer_info {
                        Some(p) => old(self).spec_validate_peer_info(subnet_id, subnet_node_id, 0, p@),
                        None => Ok(()),
                    };
                    match check {
                        Err(e) => r == Err::<(), PalletError>(e) && *final(self) == *old(self),
                        Ok(_) => {
                            &&& r == Ok::<(), PalletError>(())
                            &&& final(self).nodes_updated(old(self), subnet_id, subnet_node_id, SubnetNodeView { client_peer_info: opt_peer_view(new_peer_info), ..n })
                            &&& (final(self).ids.client_peer_ids@, final(self).ids.multiaddrs@) == swap_peer_claims(
                                old(self).ids.client_peer_ids@, old(self).ids.multiaddrs@, subnet_id,
                                n.client_peer_info, opt_peer_view(new_peer_info), subnet_node_id)
                            &&& final(self).ids.peer_ids == old(self).ids.peer_ids
                            &&& final(self).ids.bootnode_peer_ids == old(self).ids.bootnode_peer_ids
                            &&& final(self).ids.overwatch_peer_ids == old(self).ids.overwatch_peer_ids
                            &&& final(self).ids.unique_params == old(self).ids.unique_params
                            &&& final(self).same_outside_nodes_and_ids(old(self))
                        },
                    }
                },
            },
    {
        let mut node = match self.node_ref(subnet_id, subnet_node_id) {
            Some(n) => n.clone(),
            None => {
                return Err(PalletError::InvalidSubnetNodeId);
            },
        };
        if let Some(p) = &new_peer_info {
            self.validate_peer_info(subnet_id, subnet_node_id, 0, p)?;
        }
        let new_info = opt_peer_clone(&new_peer_info);
        crate::registry::swap_claims(
            &mut self.ids.client_peer_ids,
            &mut self.ids.multiaddrs,
            subnet_id,
            &node.client_peer_info,
            &new_info,
            subnet_node_id,
        );
        node.client_peer_info = new_peer_info;
        self.store_node(subnet_id, subnet_node_id, node);
        Ok(())
    }

    /// Replaces or clears the unique tag of a node. A tag claimed by another node is refused
    /// before any index changes; the node's previous tag is released.
    pub fn do_update_unique(
        &mut self,
        subnet_id: u32,
        subnet_node_id: u32,
        unique: Option<Vec<u8>>,
    ) -> (r: Result<(), PalletError>)
        requires
            old(self).wf(),
        ensures
            final(self).wf(),
            match old(self).node_of(subnet_id, subnet_node_id) {
                None => r == Err::<(), PalletError>(PalletError::InvalidSubnetNodeId) && *final(self) == *old(self),
                Some(n) => {
                    let index = old(self).ids.unique_params@;
                    let freed = drop_key(index, subnet_id, n.unique);
                    let taken = match opt_bytes_view(unique) {
                        Some(u) => index.contains_key((subnet_id, u)) && index[(subnet_id, u)] != subnet_node_id,
                        None => false,
                    };
                    if taken {
                        r == Err::<(), PalletError>(PalletError::UniqueParameterTaken) && *final(self) == *old(self)
                    } else {
                        &&& r == Ok::<(), PalletError>(())
                        &&& final(self).nodes_updated(old(self), subnet_id, subnet_node_id, SubnetNodeView { unique: opt_bytes_view(unique), ..n })
                        &&& final(self).ids.unique_params@ == put_key(freed, subnet_id, opt_bytes_view(unique), subnet_node_id)
                        &&& final(self).ids.peer_ids == old(self).ids.peer_ids
                        &&& final(self).ids.bootnode_peer_ids == old(self).ids.bootnode_peer_ids
                        &&& final(self).ids.client_peer_ids == old(self).ids.client_peer_ids
                        &&& final(self).ids.overwatch_peer_ids == old(self).ids.overwatch_peer_ids
                        &&& final(self).ids.multiaddrs == old(self).ids.multiaddrs
                        &&& final(self).same_outside_nodes_and_ids(old(self))
                    }
                },
            },
    {
        let mut node = match self.node_ref(subnet_id, subnet_node_id) {
            Some(n) => n.clone(),
            None => {
                return Err(PalletError::InvalidSubnetNodeId);
            },
        };
        if let Some(u) = &unique {
            let k = (subnet_id, crate::table::bytes_clone(u));
            if let Some(owner) = self.ids.unique_params.get(&k) {
                if *owner != subnet_node_id {
                    return Err(PalletError::UniqueParameterTaken);
                }
            }
        }
        crate::registry::drop_entry(&mut self.ids.unique_params, subnet_id, &node.unique);
        crate::registry::put_entry(&mut self.ids.unique_params, subnet_id, &unique, subnet_node_id);
        node.unique = unique;
        self.store_node(subnet_id, subnet_node_id, node);
        Ok(())
    }

    /// Replaces or clears the non-unique tag of a node.
    pub fn do_update_non_unique(
        &mut self,
        subnet_id: u32,
        subnet_node_id: u32,
        non_unique: Option<Vec<u8>>,
    ) -> (r: Result<(), PalletError>)
        requires
            old(self).wf(),
        ensures
            final(self).wf(),
            match old(self).node_of(subnet_id, subnet_node_id) {
                None => r == Err::<(), PalletError>(PalletError::InvalidSubnetNodeId) && *final(self) == *old(self),
                Some(n) => {
                    &&& r == Ok::<(), PalletError>(())
                    &&& final(self).nodes_updated(old(self), subnet_id, subnet_node_id, SubnetNodeView { non_unique: opt_bytes_view(non_unique), ..n })
                    &&& final(self).ids == old(self).ids
                    &&& final(self).same_outside_nodes_and_ids(old(self))
                },
            },
    {
        let mut node = match self.node_ref(subnet_id, subnet_node_id) {
            Some(n) => n.clone(),
            None => {
                return Err(PalletError::InvalidSubnetNodeId);
            },
        };
        node.non_unique = non_unique;
        self.store_node(subnet_id, subnet_node_id, node);
        Ok(())
    }

    pub fn validate_delegate_account(
        delegate_account: &DelegateAccount,
        hotkey: &AccountId,
        coldkey: &AccountId,
    ) -> (r: Result<(), PalletError>)
        ensures
            r == spec_validate_delegate_account(*delegate_account, *hotkey, *coldkey),
    {
        if delegate_account.account_id == *hotkey {
            return Err(PalletError::DelegateAccountCannotBeHotkey);
        }
        if delegate_account.account_id == *coldkey {
            return Err(PalletError::DelegateAccountCannotBeColdkey);
        }
        if !(delegate_account.rate <= PERCENTAGE_FACTOR && delegate_account.rate > 0) {
            return Err(PalletError::InvalidDelegateAccountRate);
        }
        Ok(())
    }

    /// The outcome of a delegate-account update of a node, from `old` to `self`.
    pub open spec fn delegate_account_update(
        &self,
        old: &Pallet,
        subnet_id: u32,
        subnet_node_id: u32,
        delegate_account_id: Option<AccountId>,
        delegate_rate: Option<u128>,
        r: Result<(), PalletError>,
    ) -> bool {
        match old.node_of(subnet_id, subnet_node_id) {
            None => r == Err::<(), PalletError>(PalletError::InvalidSubnetNodeId) && *self == *old,
            Some(n) => match spec_delegate_account_request(n.delegate_account, delegate_account_id, delegate_rate) {
                Err(e) => r == Err::<(), PalletError>(e) && *self == *old,
                Ok(d) => match spec_validate_delegate_account(d, n.hotkey, old.spec_coldkey_of(n.hotkey)) {
                    Err(e) => r == Err::<(), PalletError>(e) && *self == *old,
                    Ok(_) => {
                        &&& r == Ok::<(), PalletError>(())
                        &&& self.nodes_updated(old, subnet_id, subnet_node_id, SubnetNodeView { delegate_account: Some(d), ..n })
                        &&& self.ids == old.ids
                        &&& self.same_outside_nodes_and_ids(old)
                    },
                },
            },
        }
    }

    /// Sets the delegate account of a node; an omitted field is taken from the current
    /// delegate account.
    pub fn do_update_delegate_account(
        &mut self,
        subnet_id: u32,
        subnet_node_id: u32,
        delegate_account_id: Option<AccountId>,
        delegate_rate: Option<u128>,
    ) -> (r: Result<(), PalletError>)
        requires
            old(self).wf(),
        ensures
            final(self).wf(),
            final(self).delegate_account_update(
                old(self),
                subnet_id,
                subnet_node_id,
                delegate_account_id,
                delegate_rate,
                r,
            ),
    {
        let mut node = match self.node_ref(subnet_id, subnet_node_id) {
            Some(n) => n.clone(),
            None => {
                return Err(PalletError::InvalidSubnetNodeId);
            },
        };
        if delegate_account_id.is_none() && delegate_rate.is_none() {
            return Err(PalletError::InvalidDelegateAccountParameters);
        }
        let account_id = match delegate_account_id {
            Some(a) => a,
            None => match node.delegate_account {
                Some(c) => c.account_id,
                None => {
                    return Err(PalletError::DelegateAccountIdIsNone);
                },
            },
        };
        let rate = match delegate_rate {
            Some(r) => r,
            None => match node.delegate_account {
                Some(c) => c.rate,
                None => {
                    return Err(PalletError::DelegateAccountRateIsNone);
                },
            },
        };
        let delegate_account = DelegateAccount { account_id, rate };
        let coldkey = self.keys.hotkey_owner.get_or_zero(&node.hotkey);
        Self::validate_delegate_account(&delegate_account, &node.hotkey, &coldkey)?;
        node.delegate_account = Some(delegate_account);
        self.store_node(subnet_id, subnet_node_id, node);
        Ok(())
    }
}

} // verus!
