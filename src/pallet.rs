use vstd::prelude::*;

use crate::election::ElectionSlots;
use crate::table::Table;
use crate::types::{AccountId, SubnetNode, SubnetNodeView};
use crate::weights::RuntimeDbWeight;

verus! {

/// Network-wide settings read by the registry.
#[derive(Debug, Clone, Copy, PartialEq, Eq, Structural)]
pub struct NetworkConfig {
    /// The largest decrease of a reward rate in one update, scaled by 10^18.
    pub max_reward_rate_decrease: u128,
    /// Blocks that must pass between two reward-rate changes of a node.
    pub node_reward_rate_update_period: u32,
    /// The largest reward rate a node may set, scaled by 10^18.
    pub max_delegate_stake_percentage: u128,
    /// The registration cost before the burn rate is applied.
    pub base_burn_amount: u128,
    pub min_node_burn_rate: u128,
    pub max_node_burn_rate: u128,
    pub stake_cooldown_epochs: u32,
    pub epoch_length: u32,
    pub db_weight: RuntimeDbWeight,
}

/// Reverse indexes from (subnet, bytes) to the node that claims them.
pub struct IdentityIndex {
    pub peer_ids: Table<(u32, Vec<u8>), u32>,
    pub bootnode_peer_ids: Table<(u32, Vec<u8>), u32>,
    pub client_peer_ids: Table<(u32, Vec<u8>), u32>,
    /// Identities of overwatch nodes, which have an id space of their own.
    pub overwatch_peer_ids: Table<(u32, Vec<u8>), u32>,
    pub multiaddrs: Table<(u32, Vec<u8>), u32>,
    pub unique_params: Table<(u32, Vec<u8>), u32>,
}

impl IdentityIndex {
    pub open spec fn wf(&self) -> bool {
        &&& self.peer_ids.wf()
        &&& self.bootnode_peer_ids.wf()
        &&& self.client_peer_ids.wf()
        &&& self.overwatch_peer_ids.wf()
        &&& self.multiaddrs.wf()
        &&& self.unique_params.wf()
    }

    pub fn new() -> (r: Self)
        ensures
            r.wf(),
    {
        IdentityIndex {
            peer_ids: Table::new(),
            bootnode_peer_ids: Table::new(),
            client_peer_ids: Table::new(),
            overwatch_peer_ids: Table::new(),
            multiaddrs: Table::new(),
            unique_params: Table::new(),
        }
    }
}

/// The operating-key and controlling-key indexes.
pub struct KeyIndex {
    /// (subnet, hotkey) to node id.
    pub hotkey_subnet_node_id: Table<(u32, AccountId), u32>,
    /// (subnet, node id) to hotkey.
    pub subnet_node_id_hotkey: Table<(u32, u32), AccountId>,
    /// hotkey to the coldkey that owns it.
    pub hotkey_owner: Table<AccountId, AccountId>,
    /// (coldkey, subnet) to the ids of the nodes the coldkey owns there.
    pub coldkey_subnet_nodes: Table<(AccountId, u32), Vec<u32>>,
    /// coldkey to its count of active nodes.
    pub coldkey_active_nodes: Table<AccountId, u32>,
}

impl KeyIndex {
    pub open spec fn wf(&self) -> bool {
        &&& self.hotkey_subnet_node_id.wf()
        &&& self.subnet_node_id_hotkey.wf()
        &&& self.hotkey_owner.wf()
        &&& self.coldkey_subnet_nodes.wf()
        &&& self.coldkey_active_nodes.wf()
    }

    pub fn new() -> (r: Self)
        ensures
            r.wf(),
    {
        KeyIndex {
            hotkey_subnet_node_id: Table::new(),
            subnet_node_id_hotkey: Table::new(),
            hotkey_owner: Table::new(),
            coldkey_subnet_nodes: Table::new(),
            coldkey_active_nodes: Table::new(),
        }
    }
}

/// Per-node counters and subnet and network node counts.
pub struct NodeStats {
    pub reputation: Table<(u32, u32), u128>,
    pub idle_epochs: Table<(u32, u32), u32>,
    pub included_epochs: Table<(u32, u32), u32>,
    pub total_subnet_nodes: Table<u32, u32>,
    pub total_nodes: u32,
    pub total_active_subnet_nodes: Table<u32, u32>,
    pub total_active_nodes: u32,
    /// Per subnet, the registered nodes waiting for activation, in order.
    pub queue: Table<u32, Vec<u32>>,
    /// Per subnet, the validators chosen in an emergency, if any.
    pub emergency_validators: Table<u32, Vec<u32>>,
}

impl NodeStats {
    pub open spec fn wf(&self) -> bool {
        &&& self.reputation.wf()
        &&& self.idle_epochs.wf()
        &&& self.included_epochs.wf()
        &&& self.total_subnet_nodes.wf()
        &&& self.total_active_subnet_nodes.wf()
        &&& self.queue.wf()
        &&& self.emergency_validators.wf()
    }

    pub fn new() -> (r: Self)
        ensures
            r.wf(),
    {
        NodeStats {
            reputation: Table::new(),
            idle_epochs: Table::new(),
            included_epochs: Table::new(),
            total_subnet_nodes: Table::new(),
            total_nodes: 0,
            total_active_subnet_nodes: Table::new(),
            total_active_nodes: 0,
            queue: Table::new(),
            emergency_validators: Table::new(),
        }
    }
}

/// Registration burn-rate state, per subnet.
pub struct BurnState {
    pub current_rate: Table<u32, u128>,
    pub registrations: Table<u32, u32>,
    pub target_registrations: Table<u32, u32>,
    pub alpha: Table<u32, u128>,
}

impl BurnState {
    pub open spec fn wf(&self) -> bool {
        &&& self.current_rate.wf()
        &&& self.registrations.wf()
        &&& self.target_registrations.wf()
        &&& self.alpha.wf()
    }

    pub fn new() -> (r: Self)
        ensures
            r.wf(),
    {
        BurnState {
            current_rate: Table::new(),
            registrations: Table::new(),
            target_registrations: Table::new(),
            alpha: Table::new(),
        }
    }
}

/// Pooled delegate stake per account, with its unbonding ledger.
pub struct DelegateStake {
    pub account_delegate_stake: Table<AccountId, u128>,
    pub total_account_delegate_stake: u128,
    /// (account, block at which it unlocks) to the amount unbonding.
    pub unbonding: Table<(AccountId, u32), u128>,
}

impl DelegateStake {
    pub open spec fn wf(&self) -> bool {
        &&& self.account_delegate_stake.wf()
        &&& self.unbonding.wf()
    }

    pub fn new() -> (r: Self)
        ensures
            r.wf(),
    {
        DelegateStake {
            account_delegate_stake: Table::new(),
            total_account_delegate_stake: 0,
            unbonding: Table::new(),
        }
    }
}

/// The node registry of the network.
pub struct Pallet {
    pub config: NetworkConfig,
    /// The current block number.
    pub block: u32,
    /// Active nodes, by (subnet, node id).
    pub subnet_nodes: Table<(u32, u32), SubnetNode>,
    /// Registered nodes not yet active, by (subnet, node id).
    pub registered_subnet_nodes: Table<(u32, u32), SubnetNode>,
    pub ids: IdentityIndex,
    pub keys: KeyIndex,
    pub stats: NodeStats,
    pub election: ElectionSlots,
    /// (subnet, epoch) to the node elected validator.
    pub elected_validators: Table<(u32, u32), u32>,
    pub burn: BurnState,
    pub stake: DelegateStake,
    /// The subnets that exist.
    pub subnets: Table<u32, u32>,
}

impl Pallet {
    /// Every table is well formed, and no node stands in both partitions.
    pub open spec fn wf(&self) -> bool {
        &&& self.subnet_nodes.wf()
        &&& self.registered_subnet_nodes.wf()
        &&& self.ids.wf()
        &&& self.keys.wf()
        &&& self.stats.wf()
        &&& self.election.wf()
        &&& self.elected_validators.wf()
        &&& self.burn.wf()
        &&& self.stake.wf()
        &&& self.subnets.wf()
        &&& forall|k: (u32, u32)|
            !(#[trigger] self.subnet_nodes@.contains_key(k) && #[trigger] self.registered_subnet_nodes@.contains_key(k))
    }

    /// The node `id` of subnet `s`, looked up first among active nodes, then among registered
    /// ones.
    pub open spec fn node_of(&self, s: u32, id: u32) -> Option<SubnetNodeView> {
        if self.subnet_nodes@.contains_key((s, id)) {
            Some(self.subnet_nodes@[(s, id)])
        } else if self.registered_subnet_nodes@.contains_key((s, id)) {
            Some(self.registered_subnet_nodes@[(s, id)])
        } else {
            None
        }
    }

    /// `new` stored as node `id` of subnet `s` in the partition that holds it.
    pub open spec fn nodes_updated(
        &self,
        old: &Pallet,
        s: u32,
        id: u32,
        new: SubnetNodeView,
    ) -> bool {
        if old.subnet_nodes@.contains_key((s, id)) {
            &&& self.subnet_nodes@ == old.subnet_nodes@.insert((s, id), new)
            &&& self.registered_subnet_nodes@ == old.registered_subnet_nodes@
        } else {
            &&& self.registered_subnet_nodes@ == old.registered_subnet_nodes@.insert((s, id), new)
            &&& self.subnet_nodes@ == old.subnet_nodes@
        }
    }

    /// An empty registry.
    pub fn new(config: NetworkConfig) -> (r: Self)
        ensures
            r.wf(),
            r.config == config,
            r.block == 0,
            r.subnet_nodes@ == Map::<(u32, u32), SubnetNodeView>::empty(),
            r.registered_subnet_nodes@ == Map::<(u32, u32), SubnetNodeView>::empty(),
    {
        Pallet {
            config,
            block: 0,
            subnet_nodes: Table::new(),
            registered_subnet_nodes: Table::new(),
            ids: IdentityIndex::new(),
            keys: KeyIndex::new(),
            stats: NodeStats::new(),
            election: ElectionSlots::new(),
            elected_validators: Table::new(),
            burn: BurnState::new(),
            stake: DelegateStake::new(),
            subnets: Table::new(),
        }
    }
}

} // verus!
