use vstd::prelude::*;

use crate::math::PERCENTAGE_FACTOR;
use crate::pallet::{NetworkConfig, Pallet};
use crate::types::{PalletError, SubnetNodeView};

verus! {

/// The policy on a change of a node's reward rate at `block`: the new rate may not exceed
/// 100% nor the network maximum, the update period must have passed since the last change,
/// the rate must change, and a decrease may not exceed the configured maximum. Increases
/// are not otherwise limited.
pub open spec fn spec_reward_rate_change(
    config: NetworkConfig,
    block: u32,
    n: SubnetNodeView,
    new_rate: u128,
) -> Result<(), PalletError> {
    if new_rate > PERCENTAGE_FACTOR || new_rate > config.max_delegate_stake_percentage {
        Err(PalletError::InvalidDelegateRewardRate)
    } else if !(block >= n.last_delegate_reward_rate_update && block - n.last_delegate_reward_rate_update
        >= config.node_reward_rate_update_period) {
        Err(PalletError::MaxRewardRateUpdates)
    } else if new_rate == n.delegate_reward_rate {
        Err(PalletError::NoDelegateRewardRateChange)
    } else if new_rate < n.delegate_reward_rate && n.delegate_reward_rate - new_rate
        > config.max_reward_rate_decrease {
        Err(PalletError::SurpassesMaxRewardRateDecrease)
    } else {
        Ok(())
    }
}

impl Pallet {
    /// Changes the reward rate of a node, within 100% and the network maximum, subject to
    /// the update period and the limit on decreases.
    pub fn do_update_node_delegate_reward_rate(
        &mut self,
        subnet_id: u32,
        subnet_node_id: u32,
        new_delegate_reward_rate: u128,
    ) -> (r: Result<(), PalletError>)
        requires
            old(self).wf(),
        ensures
            final(self).wf(),
            if new_delegate_reward_rate > PERCENTAGE_FACTOR || new_delegate_reward_rate
                > old(self).config.max_delegate_stake_percentage {
                r == Err::<(), PalletError>(PalletError::InvalidDelegateRewardRate) && *final(self) == *old(self)
            } else {
                match old(self).node_of(subnet_id, subnet_node_id) {
                    None => r == Err::<(), PalletError>(PalletError::InvalidSubnetNodeId) && *final(self) == *old(self),
                    Some(n) => match spec_reward_rate_change(old(self).config, old(self).block, n, new_delegate_reward_rate) {
                        Err(e) => r == Err::<(), PalletError>(e) && *final(self) == *old(self),
                        Ok(_) => {
                            &&& r == Ok::<(), PalletError>(())
                            &&& final(self).nodes_updated(
                                old(self),
                                subnet_id,
                                subnet_node_id,
                                SubnetNodeView {
                                    delegate_reward_rate: new_delegate_reward_rate,
                                    last_delegate_reward_rate_update: old(self).block,
                                    ..n
                                },
                            )
                            &&& final(self).ids == old(self).ids
                            &&& final(self).same_outside_nodes_and_ids(old(self))
                        },
                    },
                }
            },
    {
        let block = self.block;
        let max_reward_rate_decrease = self.config.max_reward_rate_decrease;
        let reward_rate_update_period = self.config.node_reward_rate_update_period;
        if !(new_delegate_reward_rate <= PERCENTAGE_FACTOR && new_delegate_reward_rate
            <= self.config.max_delegate_stake_percentage) {
            return Err(PalletError::InvalidDelegateRewardRate);
        }
        let mut node = match self.node_ref(subnet_id, subnet_node_id) {
            Some(n) => n.clone(),
            None => {
                return Err(PalletError::InvalidSubnetNodeId);
            },
        };
        let current = node.delegate_reward_rate;
        if !(block >= node.last_delegate_reward_rate_update && block
            - node.last_delegate_reward_rate_update >= reward_rate_update_period) {
            return Err(PalletError::MaxRewardRateUpdates);
        }
        if new_delegate_reward_rate == current {
            return Err(PalletError::NoDelegateRewardRateChange);
        }
        if new_delegate_reward_rate < current {
            let delta = current - new_delegate_reward_rate;
            if delta > max_reward_rate_decrease {
                return Err(PalletError::SurpassesMaxRewardRateDecrease);
            }
        }
        node.last_delegate_reward_rate_update = block;
        node.delegate_reward_rate = new_delegate_reward_rate;
        self.store_node(subnet_id, subnet_node_id, node);
        Ok(())
    }
}

} // verus!

verus! {

/// A rate above 100% or above the network maximum is refused. Within those bounds, two
/// changes closer together than the update period are refused whatever the new rate; once
/// the period has passed, any increase is accepted, and a decrease is accepted exactly when
/// it is no larger than the configured maximum.
pub proof fn lemma_reward_rate_policy(
    config: NetworkConfig,
    block: u32,
    n: SubnetNodeView,
    new_rate: u128,
)
    ensures
        new_rate > PERCENTAGE_FACTOR || new_rate > config.max_delegate_stake_percentage
            ==> spec_reward_rate_change(config, block, n, new_rate) == Err::<(), PalletError>(
            PalletError::InvalidDelegateRewardRate,
        ),
        new_rate <= PERCENTAGE_FACTOR && new_rate <= config.max_delegate_stake_percentage ==> {
            &&& block < n.last_delegate_reward_rate_update as int
                + config.node_reward_rate_update_period as int ==> spec_reward_rate_change(
                config,
                block,
                n,
                new_rate,
            ) == Err::<(), PalletError>(PalletError::MaxRewardRateUpdates)
            &&& block >= n.last_delegate_reward_rate_update as int
                + config.node_reward_rate_update_period as int ==> {
                &&& new_rate > n.delegate_reward_rate ==> spec_reward_rate_change(
                    config,
                    block,
                    n,
                    new_rate,
                ) == Ok::<(), PalletError>(())
                &&& new_rate < n.delegate_reward_rate && n.delegate_reward_rate - new_rate
                    <= config.max_reward_rate_decrease ==> spec_reward_rate_change(
                    config,
                    block,
                    n,
                    new_rate,
                ) == Ok::<(), PalletError>(())
                &&& new_rate < n.delegate_reward_rate && n.delegate_reward_rate - new_rate
                    > config.max_reward_rate_decrease ==> spec_reward_rate_change(
                    config,
                    block,
                    n,
                    new_rate,
                ) == Err::<(), PalletError>(PalletError::SurpassesMaxRewardRateDecrease)
            }
        },
{
}

} // verus!
