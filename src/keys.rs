use vstd::prelude::*;

use crate::node_updates::spec_validate_delegate_account;
use crate::pallet::Pallet;
use crate::types::{AccountId, DelegateAccount, PalletError, SubnetNodeView};

verus! {

impl Pallet {
    /// The operating key of a node and the controlling key that owns it, when both are known.
    pub open spec fn spec_hotkey_coldkey(&self, s: u32, id: u32) -> Option<(AccountId, AccountId)> {
        if self.keys.subnet_node_id_hotkey@.contains_key((s, id))
            && self.keys.hotkey_owner@.contains_key(self.keys.subnet_node_id_hotkey@[(s, id)]) {
            let h = self.keys.subnet_node_id_hotkey@[(s, id)];
            Some((h, self.keys.hotkey_owner@[h]))
        } else {
            None
        }
    }

    pub fn get_subnet_node_hotkey_coldkey(&self, subnet_id: u32, subnet_node_id: u32) -> (r: Option<(AccountId, AccountId)>)
        requires
            self.wf(),
        ensures
            r == self.spec_hotkey_coldkey(subnet_id, subnet_node_id),
    {
        let hotkey = match self.keys.subnet_node_id_hotkey.get(&(subnet_id, subnet_node_id)) {
            Some(h) => *h,
            None => {
                return None;
            },
        };
        let coldkey = match self.keys.hotkey_owner.get(&hotkey) {
            Some(c) => *c,
            None => {
                return None;
            },
        };
        Some((hotkey, coldkey))
    }

    /// `key` is the operating key or the controlling key of the node.
    pub fn is_subnet_node_keys_owner(&self, subnet_id: u32, subnet_node_id: u32, key: AccountId) -> (r: bool)
        requires
            self.wf(),
        ensures
            r == match self.spec_hotkey_coldkey(subnet_id, subnet_node_id) {
                Some((h, c)) => key == h || key == c,
                None => false,
            },
    {
        match self.get_subnet_node_hotkey_coldkey(subnet_id, subnet_node_id) {
            Some((hotkey, coldkey)) => key == hotkey || key == coldkey,
            None => false,
        }
    }

    /// `coldkey` is the controlling key of the node.
    pub fn is_subnet_node_coldkey(&self, subnet_id: u32, subnet_node_id: u32, coldkey: AccountId) -> (r: bool)
        requires
            self.wf(),
        ensures
            r == match self.spec_hotkey_coldkey(subnet_id, subnet_node_id) {
                Some((h, c)) => coldkey == c,
                None => false,
            },
    {
        match self.get_subnet_node_hotkey_coldkey(subnet_id, subnet_node_id) {
            Some((_, c)) => c == coldkey,
            None => false,
        }
    }

    /// The node elected validator of subnet `s` for `epoch` is `id`.
    pub fn is_chosen_validator(&self, subnet_id: u32, subnet_node_id: u32, subnet_epoch: u32) -> (r: bool)
        requires
            self.wf(),
        ensures
            r == (self.elected_validators@.contains_key((subnet_id, subnet_epoch))
                && self.elected_validators@[(subnet_id, subnet_epoch)] == subnet_node_id),
    {
        match self.elected_validators.get(&(subnet_id, subnet_epoch)) {
            Some(v) => *v == subnet_node_id,
            None => false,
        }
    }

    /// Sets the delegate account of a node on behalf of `caller`, who must hold one of the
    /// node's keys.
    pub fn update_delegate_account(
        &mut self,
        caller: AccountId,
        subnet_id: u32,
        subnet_node_id: u32,
        delegate_account_id: Option<AccountId>,
        delegate_rate: Option<u128>,
    ) -> (r: Result<(), PalletError>)
        requires
            old(self).wf(),
        ensures
            final(self).wf(),
            !(match old(self).spec_hotkey_coldkey(subnet_id, subnet_node_id) {
                Some((h, c)) => caller == h || caller == c,
                None => false,
            }) ==> r == Err::<(), PalletError>(PalletError::NotKeyOwner) && *final(self) == *old(self),
            (match old(self).spec_hotkey_coldkey(subnet_id, subnet_node_id) {
                Some((h, c)) => caller == h || caller == c,
                None => false,
            }) ==> final(self).delegate_account_update(
                old(self),
                subnet_id,
                subnet_node_id,
                delegate_account_id,
                delegate_rate,
                r,
            ),
    {
        if !self.is_subnet_node_keys_owner(subnet_id, subnet_node_id, caller) {
            return Err(PalletError::NotKeyOwner);
        }
        self.do_update_delegate_account(subnet_id, subnet_node_id, delegate_account_id, delegate_rate)
    }

    /// Hands the delegate account of a node to `new_account`, on behalf of `caller`, who must
    /// be its current holder. The rate is kept.
    pub fn transfer_delegate_account(
        &mut self,
        caller: AccountId,
        subnet_id: u32,
        subnet_node_id: u32,
        new_account: AccountId,
    ) -> (r: Result<(), PalletError>)
        requires
            old(self).wf(),
        ensures
            final(self).wf(),
            match old(self).node_of(subnet_id, subnet_node_id) {
                None => r == Err::<(), PalletError>(PalletError::InvalidSubnetNodeId) && *final(self) == *old(self),
                Some(n) => match n.delegate_account {
                    None => r == Err::<(), PalletError>(PalletError::NoDelegateAccountSet) && *final(self) == *old(self),
                    Some(d) => if d.account_id != caller {
                        r == Err::<(), PalletError>(PalletError::NotDelegateAccountOwner) && *final(self) == *old(self)
                    } else {
                        let nd = DelegateAccount { account_id: new_account, rate: d.rate };
                        match spec_validate_delegate_account(nd, n.hotkey, old(self).spec_coldkey_of(n.hotkey)) {
                            Err(e) => r == Err::<(), PalletError>(e) && *final(self) == *old(self),
                            Ok(_) => {
                                &&& r == Ok::<(), PalletError>(())
                                &&& final(self).nodes_updated(old(self), subnet_id, subnet_node_id, SubnetNodeView { delegate_account: Some(nd), ..n })
                                &&& final(self).ids == old(self).ids
                                &&& final(self).same_outside_nodes_and_ids(old(self))
                            },
                        }
                    },
                },
            },
    {
        let mut node = match self.node_ref(subnet_id, subnet_node_id) {
            Some(n) => n.clone(),
            None => {
                return Err(PalletError::InvalidSubnetNodeId);
            },
        };
        let current = match node.delegate_account {
            Some(d) => d,
            None => {
                return Err(PalletError::NoDelegateAccountSet);
            },
        };
        if current.account_id != caller {
            return Err(PalletError::NotDelegateAccountOwner);
        }
        let delegate_account = DelegateAccount { account_id: new_account, rate: current.rate };
        let coldkey = self.keys.hotkey_owner.get_or_zero(&node.hotkey);
        Self::validate_delegate_account(&delegate_account, &node.hotkey, &coldkey)?;
        node.delegate_account = Some(delegate_account);
        self.store_node(subnet_id, subnet_node_id, node);
        Ok(())
    }
}

} // verus!
