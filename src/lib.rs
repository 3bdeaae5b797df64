// Membership registry for the nodes of a subnet-organized network: a verified codec for
// layered network addresses, a registry that keeps peer identities and addresses unique
// across roles, an election slot allocator, a rate-limited reward-rate mutator, and a
// registration burn-rate controller over fixed-point percentages.

pub mod burn;
pub mod delegate_stake;
pub mod election;
pub mod keys;
pub mod math;
pub mod multiaddr;
pub mod multiaddr_laws;
pub mod multiaddr_parse;
pub mod multiaddr_text;
pub mod node_updates;
pub mod pallet;
pub mod queries;
pub mod registration;
pub mod registry;
pub mod removal;
pub mod reward_rate;
pub mod table;
pub mod types;
pub mod weights;
