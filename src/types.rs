use vstd::prelude::*;

use crate::table::{bytes_clone, opt_bytes_clone};

verus! {

/// An account, identified by a number.
pub type AccountId = u64;

/// Errors of the node registry.
#[derive(Debug, Clone, Copy, PartialEq, Eq, Structural)]
pub enum PalletError {
    InvalidSubnetNodeId,
    InvalidPeerId,
    PeerIdExist,
    MultiaddrExist,
    MultiaddrInvalidVarint,
    MultiaddrInvalidProtocol,
    MultiaddrInvalidAddress,
    MultiaddrTruncated,
    UniqueParameterTaken,
    InvalidDelegateAccountParameters,
    DelegateAccountIdIsNone,
    DelegateAccountRateIsNone,
    DelegateAccountCannotBeHotkey,
    DelegateAccountCannotBeColdkey,
    InvalidDelegateAccountRate,
    InvalidDelegateRewardRate,
    MaxRewardRateUpdates,
    NoDelegateRewardRateChange,
    SurpassesMaxRewardRateDecrease,
    NotKeyOwner,
    NotDelegateAccountOwner,
    NoDelegateAccountSet,
    AmountZero,
    NotEnoughStakeToWithdraw,
    SubnetNodeIdTaken,
}

/// A peer identity with an optional encoded address.
#[derive(Debug, PartialEq, Eq)]
pub struct PeerInfo {
    pub peer_id: Vec<u8>,
    pub multiaddr: Option<Vec<u8>>,
}

pub struct PeerInfoView {
    pub peer_id: Seq<u8>,
    pub multiaddr: Option<Seq<u8>>,
}

pub open spec fn opt_bytes_view(o: Option<Vec<u8>>) -> Option<Seq<u8>> {
    match o {
        Some(v) => Some(v@),
        None => None,
    }
}

impl View for PeerInfo {
    type V = PeerInfoView;

    open spec fn view(&self) -> PeerInfoView {
        PeerInfoView { peer_id: self.peer_id@, multiaddr: opt_bytes_view(self.multiaddr) }
    }
}

pub open spec fn opt_peer_view(o: Option<PeerInfo>) -> Option<PeerInfoView> {
    match o {
        Some(p) => Some(p@),
        None => None,
    }
}

impl Clone for PeerInfo {
    fn clone(&self) -> (r: Self)
        ensures
            r@ == self@,
    {
        let m = opt_bytes_clone(&self.multiaddr);
        let r = PeerInfo { peer_id: bytes_clone(&self.peer_id), multiaddr: m };
        assert(opt_bytes_view(r.multiaddr) == opt_bytes_view(self.multiaddr));
        r
    }
}

/// Copies an optional peer info.
pub fn opt_peer_clone(o: &Option<PeerInfo>) -> (r: Option<PeerInfo>)
    ensures
        opt_peer_view(r) == opt_peer_view(*o),
{
    match o {
        Some(p) => Some(p.clone()),
        None => None,
    }
}

/// A third-party account that receives a share (`rate`, scaled by 10^18) of a node's rewards.
#[derive(Debug, Clone, Copy, PartialEq, Eq, Structural)]
pub struct DelegateAccount {
    pub account_id: AccountId,
    pub rate: u128,
}

/// Classification tiers, in increasing order.
#[derive(Debug, Clone, Copy, PartialEq, Eq, Structural)]
pub enum SubnetNodeClass {
    Registered,
    Idle,
    Included,
    Validator,
}

pub open spec fn class_rank(c: SubnetNodeClass) -> nat {
    match c {
        SubnetNodeClass::Registered => 0,
        SubnetNodeClass::Idle => 1,
        SubnetNodeClass::Included => 2,
        SubnetNodeClass::Validator => 3,
    }
}

pub open spec fn spec_next_class(c: SubnetNodeClass) -> SubnetNodeClass {
    match c {
        SubnetNodeClass::Registered => SubnetNodeClass::Idle,
        SubnetNodeClass::Idle => SubnetNodeClass::Included,
        SubnetNodeClass::Included => SubnetNodeClass::Validator,
        SubnetNodeClass::Validator => SubnetNodeClass::Validator,
    }
}

impl SubnetNodeClass {
    /// The next tier up; the top tier stays where it is.
    pub fn next(&self) -> (r: SubnetNodeClass)
        ensures
            r == spec_next_class(*self),
    {
        match self {
            SubnetNodeClass::Registered => SubnetNodeClass::Idle,
            SubnetNodeClass::Idle => SubnetNodeClass::Included,
            SubnetNodeClass::Included => SubnetNodeClass::Validator,
            SubnetNodeClass::Validator => SubnetNodeClass::Validator,
        }
    }

    pub fn rank(&self) -> (r: u8)
        ensures
            r as nat == class_rank(*self),
    {
        match self {
            SubnetNodeClass::Registered => 0,
            SubnetNodeClass::Idle => 1,
            SubnetNodeClass::Included => 2,
            SubnetNodeClass::Validator => 3,
        }
    }
}

/// A tier and the epoch from which it holds.
#[derive(Debug, Clone, Copy, PartialEq, Eq, Structural)]
pub struct SubnetNodeClassification {
    pub node_class: SubnetNodeClass,
    pub start_epoch: u32,
}

/// The membership record of a node.
#[derive(Debug, PartialEq, Eq)]
pub struct SubnetNode {
    pub id: u32,
    pub hotkey: AccountId,
    pub peer_info: PeerInfo,
    pub bootnode_peer_info: Option<PeerInfo>,
    pub client_peer_info: Option<PeerInfo>,
    pub delegate_account: Option<DelegateAccount>,
    pub classification: SubnetNodeClassification,
    pub delegate_reward_rate: u128,
    pub last_delegate_reward_rate_update: u32,
    pub unique: Option<Vec<u8>>,
    pub non_unique: Option<Vec<u8>>,
}

pub struct SubnetNodeView {
    pub id: u32,
    pub hotkey: AccountId,
    pub peer_info: PeerInfoView,
    pub bootnode_peer_info: Option<PeerInfoView>,
    pub client_peer_info: Option<PeerInfoView>,
    pub delegate_account: Option<DelegateAccount>,
    pub classification: SubnetNodeClassification,
    pub delegate_reward_rate: u128,
    pub last_delegate_reward_rate_update: u32,
    pub unique: Option<Seq<u8>>,
    pub non_unique: Option<Seq<u8>>,
}

impl View for SubnetNode {
    type V = SubnetNodeView;

    open spec fn view(&self) -> SubnetNodeView {
        SubnetNodeView {
            id: self.id,
            hotkey: self.hotkey,
            peer_info: self.peer_info@,
            bootnode_peer_info: opt_peer_view(self.bootnode_peer_info),
            client_peer_info: opt_peer_view(self.client_peer_info),
            delegate_account: self.delegate_account,
            classification: self.classification,
            delegate_reward_rate: self.delegate_reward_rate,
            last_delegate_reward_rate_update: self.last_delegate_reward_rate_update,
            unique: opt_bytes_view(self.unique),
            non_unique: opt_bytes_view(self.non_unique),
        }
    }
}

impl SubnetNodeView {
    /// The node holds at least `class` and its tier took effect by `epoch`.
    pub open spec fn has_classification(&self, class: SubnetNodeClass, epoch: u32) -> bool {
        class_rank(self.classification.node_class) >= class_rank(class)
            && epoch >= self.classification.start_epoch
    }
}

impl SubnetNode {
    pub fn has_classification(&self, class: &SubnetNodeClass, epoch: u32) -> (r: bool)
        ensures
            r == self@.has_classification(*class, epoch),
    {
        self.classification.node_class.rank() >= class.rank() && epoch
            >= self.classification.start_epoch
    }
}

impl Clone for SubnetNode {
    fn clone(&self) -> (r: Self)
        ensures
            r@ == self@,
    {
        let r = SubnetNode {
            id: self.id,
            hotkey: self.hotkey,
            peer_info: self.peer_info.clone(),
            bootnode_peer_info: opt_peer_clone(&self.bootnode_peer_info),
            client_peer_info: opt_peer_clone(&self.client_peer_info),
            delegate_account: self.delegate_account,
            classification: self.classification,
            delegate_reward_rate: self.delegate_reward_rate,
            last_delegate_reward_rate_update: self.last_delegate_reward_rate_update,
            unique: opt_bytes_clone(&self.unique),
            non_unique: opt_bytes_clone(&self.non_unique),
        };
        assert(opt_bytes_view(r.unique) == opt_bytes_view(self.unique));
        assert(opt_bytes_view(r.non_unique) == opt_bytes_view(self.non_unique));
        r
    }
}

/// A node's record with what other indexes know of it.
#[derive(Debug, PartialEq, Eq)]
pub struct SubnetNodeInfo {
    pub subnet_id: u32,
    pub subnet_node_id: u32,
    pub coldkey: AccountId,
    pub node: SubnetNode,
    /// The number of active nodes of the coldkey.
    pub coldkey_active_nodes: u32,
    pub subnet_node_reputation: u128,
    /// The node's position in the election slots, if it holds one.
    pub node_slot_index: Option<u32>,
    pub consecutive_idle_epochs: u32,
    pub consecutive_included_epochs: u32,
}

pub struct SubnetNodeInfoView {
    pub subnet_id: u32,
    pub subnet_node_id: u32,
    pub coldkey: AccountId,
    pub node: SubnetNodeView,
    pub coldkey_active_nodes: u32,
    pub subnet_node_reputation: u128,
    pub node_slot_index: Option<u32>,
    pub consecutive_idle_epochs: u32,
    pub consecutive_included_epochs: u32,
}

impl View for SubnetNodeInfo {
    type V = SubnetNodeInfoView;

    open spec fn view(&self) -> SubnetNodeInfoView {
        SubnetNodeInfoView {
            subnet_id: self.subnet_id,
            subnet_node_id: self.subnet_node_id,
            coldkey: self.coldkey,
            node: self.node@,
            coldkey_active_nodes: self.coldkey_active_nodes,
            subnet_node_reputation: self.subnet_node_reputation,
            node_slot_index: self.node_slot_index,
            consecutive_idle_epochs: self.consecutive_idle_epochs,
            consecutive_included_epochs: self.consecutive_included_epochs,
        }
    }
}

} // verus!
