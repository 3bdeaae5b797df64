use vstd::prelude::*;

use crate::burn::{sat_add_u128, sat_sub};
use crate::pallet::Pallet;
use crate::table::value_or;
use crate::types::{AccountId, PalletError};

verus! {

/// `a + b` saturated at `u32::MAX`.
pub open spec fn sat_add_u32(a: int, b: int) -> int {
    if a + b > u32::MAX as int {
        u32::MAX as int
    } else {
        a + b
    }
}

/// `a · b` saturated at `u32::MAX`.
pub open spec fn sat_mul_u32(a: int, b: int) -> int {
    if a * b > u32::MAX as int {
        u32::MAX as int
    } else {
        a * b
    }
}

impl Pallet {
    /// The block at which stake removed now unlocks: after the cooldown epochs.
    pub open spec fn spec_unlock_block(&self) -> u32 {
        sat_add_u32(
            self.block as int,
            sat_mul_u32(self.config.stake_cooldown_epochs as int, self.config.epoch_length as int),
        ) as u32
    }

    /// Adds `amount` to the delegate balance of `account_id` and to the total, saturating.
    pub fn increase_delegate_account_balance(&mut self, account_id: &AccountId, amount: u128)
        requires
            old(self).wf(),
        ensures
            final(self).wf(),
            final(self).stake.account_delegate_stake@ == old(self).stake.account_delegate_stake@.insert(
                *account_id,
                sat_add_u128(value_or(old(self).stake.account_delegate_stake@, *account_id, 0u128) as int, amount as int) as u128,
            ),
            final(self).stake.total_account_delegate_stake as int == sat_add_u128(
                old(self).stake.total_account_delegate_stake as int,
                amount as int,
            ),
            final(self).stake.unbonding == old(self).stake.unbonding,
            final(self).burn == old(self).burn,
            final(self).ids == old(self).ids,
            final(self).subnet_nodes == old(self).subnet_nodes,
            final(self).registered_subnet_nodes == old(self).registered_subnet_nodes,
            final(self).config == old(self).config,
            final(self).block == old(self).block,
            final(self).keys == old(self).keys,
            final(self).stats == old(self).stats,
            final(self).election == old(self).election,
            final(self).elected_validators == old(self).elected_validators,
            final(self).subnets == old(self).subnets,
    {
        let b = self.stake.account_delegate_stake.get_or_zero(account_id);
        self.stake.account_delegate_stake.insert(*account_id, b.saturating_add(amount));
        self.stake.total_account_delegate_stake = self.stake.total_account_delegate_stake.saturating_add(amount);
    }

    /// Takes `amount` from the delegate balance of `account_id` and from the total, not
    /// below zero.
    pub fn decrease_delegate_account_balance(&mut self, account_id: &AccountId, amount: u128)
        requires
            old(self).wf(),
        ensures
            final(self).wf(),
            final(self).stake.account_delegate_stake@ == old(self).stake.account_delegate_stake@.insert(
                *account_id,
                sat_sub(value_or(old(self).stake.account_delegate_stake@, *account_id, 0u128) as int, amount as int) as u128,
            ),
            final(self).stake.total_account_delegate_stake as int == sat_sub(
                old(self).stake.total_account_delegate_stake as int,
                amount as int,
            ),
            final(self).stake.unbonding == old(self).stake.unbonding,
            final(self).burn == old(self).burn,
            final(self).ids == old(self).ids,
            final(self).subnet_nodes == old(self).subnet_nodes,
            final(self).registered_subnet_nodes == old(self).registered_subnet_nodes,
            final(self).config == old(self).config,
            final(self).block == old(self).block,
            final(self).keys == old(self).keys,
            final(self).stats == old(self).stats,
            final(self).election == old(self).election,
            final(self).elected_validators == old(self).elected_validators,
            final(self).subnets == old(self).subnets,
    {
        let b = self.stake.account_delegate_stake.get_or_zero(account_id);
        self.stake.account_delegate_stake.insert(*account_id, b.saturating_sub(amount));
        self.stake.total_account_delegate_stake = self.stake.total_account_delegate_stake.saturating_sub(amount);
    }

    /// Withdraws `amount` of `account_id`'s delegate balance into the unbonding ledger, where
    /// it unlocks after the stake cooldown.
    pub fn do_remove_delegate_balance(&mut self, account_id: AccountId, amount_to_remove: u128) -> (r: Result<(), PalletError>)
        requires
            old(self).wf(),
        ensures
            final(self).wf(),
            amount_to_remove == 0 ==> r == Err::<(), PalletError>(PalletError::AmountZero) && *final(self) == *old(self),
            amount_to_remove > 0 && value_or(old(self).stake.account_delegate_stake@, account_id, 0u128) < amount_to_remove
                ==> r == Err::<(), PalletError>(PalletError::NotEnoughStakeToWithdraw) && *final(self) == *old(self),
            amount_to_remove > 0 && value_or(old(self).stake.account_delegate_stake@, account_id, 0u128) >= amount_to_remove
                ==> {
                let unlock = old(self).spec_unlock_block();
                &&& r == Ok::<(), PalletError>(())
                &&& final(self).stake.account_delegate_stake@ == old(self).stake.account_delegate_stake@.insert(
                    account_id,
                    (value_or(old(self).stake.account_delegate_stake@, account_id, 0u128) - amount_to_remove) as u128,
                )
                &&& final(self).stake.total_account_delegate_stake as int == sat_sub(
                    old(self).stake.total_account_delegate_stake as int,
                    amount_to_remove as int,
                )
                &&& final(self).stake.unbonding@ == old(self).stake.unbonding@.insert(
                    (account_id, unlock),
                    sat_add_u128(value_or(old(self).stake.unbonding@, (account_id, unlock), 0u128) as int, amount_to_remove as int) as u128,
                )
                &&& final(self).burn == old(self).burn
                &&& final(self).ids == old(self).ids
                &&& final(self).subnet_nodes == old(self).subnet_nodes
                &&& final(self).registered_subnet_nodes == old(self).registered_subnet_nodes
                &&& final(self).config == old(self).config
                &&& final(self).block == old(self).block
                &&& final(self).keys == old(self).keys
                &&& final(self).stats == old(self).stats
                &&& final(self).election == old(self).election
                &&& final(self).elected_validators == old(self).elected_validators
                &&& final(self).subnets == old(self).subnets
            },
    {
        let balance = self.stake.account_delegate_stake.get_or_zero(&account_id);
        if amount_to_remove == 0 {
            return Err(PalletError::AmountZero);
        }
        if balance < amount_to_remove {
            return Err(PalletError::NotEnoughStakeToWithdraw);
        }
        self.decrease_delegate_account_balance(&account_id, amount_to_remove);
        let cooldown = match self.config.stake_cooldown_epochs.checked_mul(self.config.epoch_length) {
            Some(c) => c,
            None => u32::MAX,
        };
        let unlock = self.block.saturating_add(cooldown);
        let pending = self.stake.unbonding.get_or_zero(&(account_id, unlock));
        self.stake.unbonding.insert((account_id, unlock), pending.saturating_add(amount_to_remove));
        Ok(())
    }
}

} // verus!
