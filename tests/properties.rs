use pallet_network::election::ElectionSlots;
use pallet_network::math::WideU256;
use pallet_network::multiaddr::{encode_varint, Multiaddr, MultiaddrError, IP4, P2P, TCP};
use pallet_network::pallet::{NetworkConfig, Pallet};
use pallet_network::types::{
    DelegateAccount, PalletError, PeerInfo, SubnetNode, SubnetNodeClass, SubnetNodeClassification,
};
use pallet_network::weights::{RuntimeDbWeight, Weight, WeightMeter};

const FACTOR: u128 = 1_000_000_000_000_000_000;

fn config() -> NetworkConfig {
    NetworkConfig {
        max_reward_rate_decrease: 10_000_000_000_000_000,
        node_reward_rate_update_period: 100,
        max_delegate_stake_percentage: 950_000_000_000_000_000,
        base_burn_amount: 100_000_000_000_000_000_000,
        min_node_burn_rate: 500_000_000_000_000_000,
        max_node_burn_rate: 2_000_000_000_000_000_000,
        stake_cooldown_epochs: 10,
        epoch_length: 20,
        db_weight: RuntimeDbWeight { read: 25, write: 100 },
    }
}

fn peer(n: u8) -> Vec<u8> {
    let mut p = vec![0x12, 0x20];
    p.extend_from_slice(&[n; 32]);
    p
}

fn address(ip_last: u8, port: u16, id: &[u8]) -> Vec<u8> {
    let mut bytes = vec![];
    encode_varint(IP4, &mut bytes);
    bytes.extend_from_slice(&[10, 0, 0, ip_last]);
    encode_varint(TCP, &mut bytes);
    bytes.extend_from_slice(&port.to_be_bytes());
    encode_varint(P2P, &mut bytes);
    encode_varint(id.len() as u64, &mut bytes);
    bytes.extend_from_slice(id);
    bytes
}

fn register(network: &mut Pallet, id: u32, hotkey: u64, primary: Vec<u8>) -> Result<(), PalletError> {
    network.register_subnet_node(
        1000 + hotkey,
        1,
        id,
        hotkey,
        PeerInfo { peer_id: primary, multiaddr: None },
        None,
        None,
        None,
        None,
        None,
    )
}

fn active_node(network: &mut Pallet, id: u32, hotkey: u64, rate: u128, last_update: u32) {
    let node = SubnetNode {
        id,
        hotkey,
        peer_info: PeerInfo { peer_id: peer(id as u8), multiaddr: None },
        bootnode_peer_info: None,
        client_peer_info: None,
        delegate_account: None,
        classification: SubnetNodeClassification { node_class: SubnetNodeClass::Validator, start_epoch: 0 },
        delegate_reward_rate: rate,
        last_delegate_reward_rate_update: last_update,
        unique: None,
        non_unique: None,
    };
    network.subnet_nodes.insert((1, id), node);
    network.ids.peer_ids.insert((1, peer(id as u8)), id);
}

#[test]
fn percent_mul_identities_and_values() {
    assert_eq!(Pallet::percent_mul(12345, 0), 0);
    assert_eq!(Pallet::percent_mul(0, 777), 0);
    assert_eq!(Pallet::percent_mul(FACTOR, 987654321), 987654321);
    assert_eq!(Pallet::percent_mul(200, 500_000_000_000_000_000), 100);
    assert_eq!(Pallet::percent_mul(3, 500_000_000_000_000_000), 1);
    assert_eq!(Pallet::percent_mul(u128::MAX, u128::MAX), u128::MAX);
    assert_eq!(Pallet::percent_mul(u128::MAX, 2 * FACTOR), u128::MAX);
    assert_eq!(Pallet::percent_mul(u128::MAX, FACTOR), u128::MAX);
}

#[test]
fn percent_div_values() {
    assert_eq!(Pallet::percent_div(1, 4), 250_000_000_000_000_000);
    assert_eq!(Pallet::percent_div(5, 0), 0);
    assert_eq!(Pallet::percent_div(0, 5), 0);
    assert_eq!(Pallet::percent_div(2, 3), 666_666_666_666_666_666);
    assert_eq!(Pallet::percent_div(u128::MAX, 1), u128::MAX);
    assert_eq!(Pallet::percentage_factor_as_u128(), FACTOR);
}

#[test]
fn checked_mul_div_values() {
    let w = |v: u128| WideU256 { high: 0, low: v };
    let max = WideU256 { high: u128::MAX, low: u128::MAX };
    assert_eq!(Pallet::checked_mul_div(w(6), w(7), w(0)), None);
    assert_eq!(Pallet::checked_mul_div(w(6), w(7), w(4)), Some(w(10)));
    assert_eq!(Pallet::checked_mul_div(w(u128::MAX), w(u128::MAX), w(u128::MAX)), Some(w(u128::MAX)));
    assert_eq!(Pallet::checked_mul_div(w(u128::MAX), w(2), w(1)), Some(WideU256 { high: 1, low: u128::MAX - 1 }));
    assert_eq!(
        Pallet::checked_mul_div(w(u128::MAX), w(u128::MAX), w(1)),
        Some(WideU256 { high: u128::MAX - 1, low: 1 })
    );
    assert_eq!(Pallet::checked_mul_div(max, w(1), w(1)), Some(max));
    assert_eq!(Pallet::checked_mul_div(max, w(2), w(3)), None);
    assert_eq!(Pallet::checked_mul_div(WideU256 { high: 1, low: 0 }, WideU256 { high: 1, low: 0 }, w(1)), None);
}

#[test]
fn election_slots_keep_index_and_counters() {
    let mut slots = ElectionSlots::new();
    assert!(slots.insert(1, 10));
    assert!(slots.insert(1, 20));
    assert!(slots.insert(1, 30));
    assert!(slots.insert(2, 10));
    assert!(!slots.insert(1, 20));
    assert_eq!(slots.total_electable, 4);
    assert!(slots.remove(1, 10));
    assert!(!slots.remove(1, 10));
    assert!(!slots.remove(3, 10));
    assert_eq!(slots.total_electable, 3);
    assert_eq!(slots.slots.get(&1).unwrap(), &vec![30, 20]);
    assert_eq!(slots.slot_of(1, 30), Some(0));
    assert_eq!(slots.slot_of(1, 20), Some(1));
    assert_eq!(slots.slot_of(1, 10), None);
    assert_eq!(slots.subnet_electable.get(&1), Some(&2));
    assert_eq!(slots.subnet_electable.get(&2), Some(&1));
    assert!(slots.remove(1, 20));
    assert_eq!(slots.slots.get(&1).unwrap(), &vec![30]);
    assert_eq!(slots.total_electable, 2);
}

#[test]
fn identity_claimed_in_any_role_is_refused() {
    let mut network = Pallet::new(config());
    assert_eq!(
        network.register_subnet_node(
            1,
            1,
            1,
            2,
            PeerInfo { peer_id: peer(1), multiaddr: None },
            Some(PeerInfo { peer_id: peer(2), multiaddr: None }),
            Some(PeerInfo { peer_id: peer(3), multiaddr: None }),
            None,
            None,
            None,
        ),
        Ok(())
    );
    for taken in [peer(1), peer(2), peer(3)] {
        assert_eq!(register(&mut network, 2, 5, taken), Err(PalletError::PeerIdExist));
    }
    network.perform_remove_subnet_node(1, 1);
    for freed in [peer(1), peer(2), peer(3)] {
        assert!(network.is_owner_of_peer_or_ownerless(1, 9, 0, &freed));
    }
    assert_eq!(register(&mut network, 2, 5, peer(2)), Ok(()));
}

#[test]
fn register_remove_register_scenario() {
    let mut network = Pallet::new(config());
    let p1 = peer(7);
    assert_eq!(register(&mut network, 1, 11, p1.clone()), Ok(()));
    assert_eq!(register(&mut network, 2, 12, p1.clone()), Err(PalletError::PeerIdExist));
    network.remove_registered_subnet_node(1, 1);
    assert!(network.get_subnet_node(1, 1).is_none());
    assert_eq!(register(&mut network, 2, 12, p1.clone()), Ok(()));
    assert_eq!(network.ids.peer_ids.get(&(1, p1)), Some(&2));
}

#[test]
fn address_claims_are_unique_and_verified() {
    let mut network = Pallet::new(config());
    let a = address(1, 30333, &peer(1));
    assert_eq!(
        network.register_subnet_node(
            1, 1, 1, 2,
            PeerInfo { peer_id: peer(1), multiaddr: Some(a.clone()) },
            None, None, None, None, None,
        ),
        Ok(())
    );
    assert_eq!(
        network.register_subnet_node(
            3, 1, 2, 4,
            PeerInfo { peer_id: peer(2), multiaddr: Some(a.clone()) },
            None, None, None, None, None,
        ),
        Err(PalletError::MultiaddrExist)
    );
    let mut bad = a.clone();
    bad.truncate(bad.len() - 3);
    assert_eq!(
        network.do_update_peer_id(1, 1, PeerInfo { peer_id: peer(3), multiaddr: Some(bad) }),
        Err(PalletError::MultiaddrTruncated)
    );
    assert_eq!(network.do_update_peer_id(1, 1, PeerInfo { peer_id: vec![], multiaddr: None }), Err(PalletError::InvalidPeerId));
    assert_eq!(network.do_update_peer_id(1, 9, PeerInfo { peer_id: peer(3), multiaddr: None }), Err(PalletError::InvalidSubnetNodeId));
    assert_eq!(network.do_update_peer_id(1, 1, PeerInfo { peer_id: peer(3), multiaddr: None }), Ok(()));
    assert_eq!(network.ids.multiaddrs.get(&(1, a.clone())), None);
    assert_eq!(network.ids.peer_ids.get(&(1, peer(1))), None);
    assert_eq!(network.ids.peer_ids.get(&(1, peer(3))), Some(&1));
}

#[test]
fn unique_tag_and_optional_roles() {
    let mut network = Pallet::new(config());
    assert_eq!(register(&mut network, 1, 11, peer(1)), Ok(()));
    assert_eq!(register(&mut network, 2, 12, peer(2)), Ok(()));
    assert_eq!(network.do_update_unique(1, 1, Some(b"tag".to_vec())), Ok(()));
    assert_eq!(network.do_update_unique(1, 2, Some(b"tag".to_vec())), Err(PalletError::UniqueParameterTaken));
    assert_eq!(network.do_update_unique(1, 1, Some(b"tag".to_vec())), Ok(()));
    assert_eq!(network.do_update_unique(1, 1, None), Ok(()));
    assert_eq!(network.do_update_unique(1, 2, Some(b"tag".to_vec())), Ok(()));
    assert_eq!(network.do_update_non_unique(1, 2, Some(b"x".to_vec())), Ok(()));
    assert_eq!(network.get_subnet_node(1, 2).unwrap().non_unique, Some(b"x".to_vec()));
    assert_eq!(network.do_update_bootnode_peer_id(1, 1, Some(PeerInfo { peer_id: peer(9), multiaddr: None })), Ok(()));
    assert_eq!(network.do_update_client_peer_id(1, 2, Some(PeerInfo { peer_id: peer(9), multiaddr: None })), Err(PalletError::PeerIdExist));
    assert_eq!(network.do_update_bootnode_peer_id(1, 1, None), Ok(()));
    assert_eq!(network.do_update_client_peer_id(1, 2, Some(PeerInfo { peer_id: peer(9), multiaddr: None })), Ok(()));
    assert_eq!(network.ids.client_peer_ids.get(&(1, peer(9))), Some(&2));
}

#[test]
fn reward_rate_cooldown_and_decrease_limit() {
    let mut network = Pallet::new(config());
    active_node(&mut network, 1, 11, 500_000_000_000_000_000, 0);
    network.block = 50;
    assert_eq!(network.do_update_node_delegate_reward_rate(1, 1, 600_000_000_000_000_000), Err(PalletError::MaxRewardRateUpdates));
    network.block = 100;
    assert_eq!(network.do_update_node_delegate_reward_rate(1, 1, 900_000_000_000_000_000), Ok(()));
    network.block = 150;
    assert_eq!(network.do_update_node_delegate_reward_rate(1, 1, 950_000_000_000_000_000), Err(PalletError::MaxRewardRateUpdates));
    network.block = 200;
    assert_eq!(network.do_update_node_delegate_reward_rate(1, 1, 900_000_000_000_000_000), Err(PalletError::NoDelegateRewardRateChange));
    assert_eq!(network.do_update_node_delegate_reward_rate(1, 1, 889_999_999_999_999_999), Err(PalletError::SurpassesMaxRewardRateDecrease));
    assert_eq!(network.do_update_node_delegate_reward_rate(1, 1, 890_000_000_000_000_000), Ok(()));
    assert_eq!(network.get_subnet_node(1, 1).unwrap().last_delegate_reward_rate_update, 200);
    network.block = 300;
    assert_eq!(network.do_update_node_delegate_reward_rate(1, 1, 960_000_000_000_000_000), Err(PalletError::InvalidDelegateRewardRate));
    assert_eq!(network.do_update_node_delegate_reward_rate(1, 1, FACTOR + 1), Err(PalletError::InvalidDelegateRewardRate));
    assert_eq!(network.do_update_node_delegate_reward_rate(1, 9, 1), Err(PalletError::InvalidSubnetNodeId));
    assert_eq!(network.do_update_node_delegate_reward_rate(1, 1, 950_000_000_000_000_000), Ok(()));
}

#[test]
fn burn_rate_targets_and_epoch_step() {
    let mut network = Pallet::new(config());
    assert_eq!(network.calculate_target_burn_rate(0, 10), 500_000_000_000_000_000);
    assert_eq!(network.calculate_target_burn_rate(10, 10), 2_000_000_000_000_000_000);
    assert_eq!(network.calculate_target_burn_rate(20, 10), 2_000_000_000_000_000_000);
    assert_eq!(network.calculate_target_burn_rate(5, 10), 1_250_000_000_000_000_000);

    network.burn.target_registrations.insert(1, 10);
    network.burn.alpha.insert(1, FACTOR);
    network.burn.current_rate.insert(1, 500_000_000_000_000_000);
    for _ in 0..5 {
        assert_eq!(network.record_registration(1), Ok(()));
    }
    assert_eq!(network.burn.registrations.get(&1), Some(&5));
    let mut meter = WeightMeter::with_limit(Weight { ref_time: 1_000, proof_size: 0 });
    network.update_burn_rate_for_epoch(&mut meter, 1);
    assert_eq!(network.burn.current_rate.get(&1), Some(&1_250_000_000_000_000_000));
    assert_eq!(network.burn.registrations.get(&1), Some(&0));
    assert_eq!(meter.consumed, Weight { ref_time: 9 * 25 + 2 * 100, proof_size: 0 });
    assert_eq!(network.calculate_burn_amount(1), 125_000_000_000_000_000_000);

    network.burn.alpha.insert(1, 500_000_000_000_000_000);
    network.update_burn_rate_for_epoch(&mut meter, 1);
    assert_eq!(network.burn.current_rate.get(&1), Some(&875_000_000_000_000_000));
}

#[test]
fn burn_rate_step_deferred_without_budget() {
    let mut network = Pallet::new(config());
    network.burn.current_rate.insert(1, 700_000_000_000_000_000);
    assert_eq!(network.record_registration(1), Ok(()));
    let mut meter = WeightMeter::with_limit(Weight { ref_time: 424, proof_size: 0 });
    network.update_burn_rate_for_epoch(&mut meter, 1);
    assert_eq!(meter.consumed, Weight { ref_time: 0, proof_size: 0 });
    assert_eq!(network.burn.current_rate.get(&1), Some(&700_000_000_000_000_000));
    assert_eq!(network.burn.registrations.get(&1), Some(&1));
}

#[test]
fn delegate_balance_removal_goes_to_unbonding() {
    let mut network = Pallet::new(config());
    network.block = 7;
    network.increase_delegate_account_balance(&5, 1_000);
    assert_eq!(network.do_remove_delegate_balance(5, 0), Err(PalletError::AmountZero));
    assert_eq!(network.do_remove_delegate_balance(5, 1_001), Err(PalletError::NotEnoughStakeToWithdraw));
    assert_eq!(network.do_remove_delegate_balance(5, 400), Ok(()));
    assert_eq!(network.stake.account_delegate_stake.get(&5), Some(&600));
    assert_eq!(network.stake.total_account_delegate_stake, 600);
    assert_eq!(network.stake.unbonding.get(&(5, 207)), Some(&400));
    network.decrease_delegate_account_balance(&5, 10_000);
    assert_eq!(network.stake.account_delegate_stake.get(&5), Some(&0));
}

#[test]
fn removal_clears_indexes_and_election_slot() {
    let mut network = Pallet::new(config());
    active_node(&mut network, 1, 11, 0, 0);
    network.keys.subnet_node_id_hotkey.insert((1, 1), 11);
    network.keys.hotkey_subnet_node_id.insert((1, 11), 1);
    network.keys.hotkey_owner.insert(11, 99);
    network.keys.coldkey_subnet_nodes.insert((99, 1), vec![1]);
    network.stats.total_active_subnet_nodes.insert(1, 1);
    network.stats.total_active_nodes = 1;
    assert!(network.insert_node_into_election_slot(1, 1));
    assert!(!network.insert_node_into_election_slot(1, 1));
    assert!(network.is_subnet_node_keys_owner(1, 1, 99));
    assert!(network.is_subnet_node_coldkey(1, 1, 99));
    network.remove_active_subnet_node(1, 1);
    assert!(network.get_subnet_node(1, 1).is_none());
    assert_eq!(network.ids.peer_ids.get(&(1, peer(1))), None);
    assert_eq!(network.keys.coldkey_subnet_nodes.get(&(99, 1)), None);
    assert_eq!(network.keys.hotkey_owner.get(&11), Some(&99));
    assert!(!network.remove_node_from_election_slot(1, 1));
    assert_eq!(network.election.total_electable, 0);
    assert_eq!(network.stats.total_active_nodes, 0);
}

#[test]
fn classification_queries_and_graduation() {
    let mut network = Pallet::new(config());
    active_node(&mut network, 1, 11, 0, 0);
    active_node(&mut network, 2, 12, 0, 0);
    assert!(network.graduate_class(1, 2, 5));
    assert!(!network.graduate_class(1, 3, 5));
    assert_eq!(network.get_subnet_node(1, 2).unwrap().classification.node_class, SubnetNodeClass::Validator);
    assert_eq!(network.get_classified_hotkeys(1, &SubnetNodeClass::Validator, 1), vec![11]);
    assert_eq!(network.get_classified_hotkeys(1, &SubnetNodeClass::Validator, 5), vec![11, 12]);
    assert_eq!(network.get_active_classified_subnet_nodes(1, &SubnetNodeClass::Validator, 5).len(), 2);
    assert_eq!(network.get_classified_subnet_nodes_map(1, &SubnetNodeClass::Validator, 1).len(), 1);
    let infos = network.get_classified_subnet_nodes_info(1, &SubnetNodeClass::Validator, 5);
    assert_eq!(infos.len(), 2);
    assert_eq!(infos[1].subnet_node_id, 2);
    assert!(network.get_validator_subnet_node(1, 1, 0).is_some());
    assert!(network.get_validator_subnet_node(1, 2, 4).is_none());
    network.update_subnet_node_hotkey(1, 1, 77);
    assert_eq!(network.get_active_subnet_node(1, 1).unwrap().hotkey, 77);
    network.elected_validators.insert((1, 3), 2);
    assert!(network.is_chosen_validator(1, 2, 3));
    assert!(!network.is_chosen_validator(1, 1, 3));
}

#[test]
fn coldkey_entries_of_removed_subnets_are_cleaned() {
    let mut network = Pallet::new(config());
    network.subnets.insert(1, 0);
    network.keys.coldkey_subnet_nodes.insert((9, 1), vec![1]);
    network.keys.coldkey_subnet_nodes.insert((9, 2), vec![3]);
    network.keys.coldkey_subnet_nodes.insert((8, 2), vec![4]);
    network.clean_coldkey_subnet_nodes(9);
    assert_eq!(network.keys.coldkey_subnet_nodes.get(&(9, 1)), Some(&vec![1]));
    assert_eq!(network.keys.coldkey_subnet_nodes.get(&(9, 2)), None);
    assert_eq!(network.keys.coldkey_subnet_nodes.get(&(8, 2)), Some(&vec![4]));
}

#[test]
fn verify_round_trip_and_text_round_trip() {
    let id = peer(4);
    let ma = Multiaddr::verify(&address(1, 4001, &id)).unwrap();
    let again = Multiaddr::verify(&ma.to_bytes()).unwrap();
    assert_eq!(ma, again);
    assert_eq!(ma.to_vec().unwrap(), again.to_vec().unwrap());
    let text = ma.to_vec().unwrap().join("");
    assert_eq!(text, format!("/ip4/10.0.0.1/tcp/4001/p2p/{}", bs58::encode(&id).into_string()));
    let parsed = Multiaddr::from_str(&text).unwrap();
    assert_eq!(parsed, ma);
    let v6 = Multiaddr::from_str(&format!("/ip6/2001:db8::ff/udp/9/p2p/{}", bs58::encode(&id).into_string())).unwrap();
    assert_eq!(v6.to_vec().unwrap()[0], "/ip6/2001:db8:0:0:0:0:0:ff");
    assert_eq!(Multiaddr::from_str("/ip4/1.2.3/tcp/1"), Err(MultiaddrError::InvalidAddress));
    assert_eq!(Multiaddr::from_str("/ip4/1.2.3.4/tcp/70000"), Err(MultiaddrError::InvalidAddress));
    assert_eq!(Multiaddr::from_str("/ip4/1.2.3.4/quic"), Err(MultiaddrError::InvalidProtocol));
    assert_eq!(Multiaddr::from_str("/ip4/1.2.3.4/tcp/80"), Err(MultiaddrError::InvalidProtocol));
    assert_eq!(Multiaddr::from_str("/p2p/0OIl"), Err(MultiaddrError::InvalidAddress));
    assert_eq!(Multiaddr::from_str("/ip6/1::2::3/p2p/2"), Err(MultiaddrError::InvalidAddress));
}

#[test]
fn extend_concatenates_and_stays_valid() {
    let mut a = Multiaddr::verify(&address(1, 1, &peer(1))).unwrap();
    let b = Multiaddr::verify(&address(2, 2, &peer(2))).unwrap();
    a.extend(&b);
    let mut joined = address(1, 1, &peer(1));
    joined.extend_from_slice(&address(2, 2, &peer(2)));
    assert_eq!(a.to_bytes(), joined);
    assert_eq!(a.to_vec().unwrap().len(), 6);
}

#[test]
fn invalid_utf8_name_is_reported_by_to_vec() {
    let mut bytes = vec![];
    encode_varint(54, &mut bytes);
    encode_varint(2, &mut bytes);
    bytes.extend_from_slice(&[0xff, 0xfe]);
    encode_varint(P2P, &mut bytes);
    encode_varint(1, &mut bytes);
    bytes.push(7);
    let ma = Multiaddr::verify(&bytes).unwrap();
    assert_eq!(ma.to_vec(), Err(MultiaddrError::InvalidAddress));
}

#[test]
fn varint_encoding_values() {
    let mut out = vec![];
    encode_varint(300, &mut out);
    assert_eq!(out, vec![0xac, 0x02]);
    assert_eq!(pallet_network::multiaddr::decode_varint(&out), Some((300, 2)));
    assert_eq!(pallet_network::multiaddr::decode_varint(&[0x80]), None);
    let mut i: usize = 3;
    assert_eq!(pallet_network::multiaddr::advance(&[0u8; 4], &mut i, 2), Err(MultiaddrError::Truncated));
    assert_eq!(i, 3);
    assert_eq!(pallet_network::multiaddr::advance(&[0u8; 4], &mut i, 1), Ok(()));
    assert_eq!(i, 4);
}

#[test]
fn delegate_account_rules() {
    let d = DelegateAccount { account_id: 5, rate: FACTOR };
    assert_eq!(Pallet::validate_delegate_account(&d, &1, &2), Ok(()));
    assert_eq!(Pallet::validate_delegate_account(&d, &5, &2), Err(PalletError::DelegateAccountCannotBeHotkey));
}

#[test]
fn registry_reports_codec_errors_and_taken_ids() {
    assert_eq!(Pallet::do_verify_multiaddr(&[0xff; 10]), Err(PalletError::MultiaddrInvalidVarint));
    assert_eq!(Pallet::do_verify_multiaddr(&[4, 127, 0, 0, 1]), Err(PalletError::MultiaddrInvalidProtocol));
    assert_eq!(Pallet::do_verify_multiaddr(&address(1, 1, &peer(1))), Ok(()));
    let mut network = Pallet::new(config());
    assert_eq!(register(&mut network, 1, 11, peer(1)), Ok(()));
    assert_eq!(register(&mut network, 1, 12, peer(2)), Err(PalletError::SubnetNodeIdTaken));
    assert!(Pallet::validate_peer_id(&peer(1)));
    assert!(!Pallet::validate_peer_id(&vec![1u8; 129]));
    assert_eq!(network.stats.queue.get(&1), Some(&vec![1]));
    assert_eq!(network.stats.total_subnet_nodes.get(&1), Some(&1));
    assert_eq!(network.burn.registrations.get(&1), Some(&1));
    assert_eq!(network.get_subnet_node_hotkey_coldkey(1, 1), Some((11, 1011)));
}

#[test]
fn removal_frees_slot_of_any_class() {
    let mut network = Pallet::new(config());
    active_node(&mut network, 3, 13, 0, 0);
    assert!(network.graduate_class(1, 3, 0));
    assert_eq!(network.get_subnet_node(1, 3).unwrap().classification.node_class, SubnetNodeClass::Validator);
    let mut n = network.get_subnet_node(1, 3).unwrap();
    n.classification.node_class = SubnetNodeClass::Included;
    network.subnet_nodes.insert((1, 3), n);
    assert!(network.insert_node_into_election_slot(1, 3));
    network.remove_active_subnet_node(1, 3);
    assert_eq!(network.election.slot_of(1, 3), None);
    assert_eq!(network.election.total_electable, 0);
    assert_eq!(network.election.subnet_electable.get(&1), Some(&0));
}

#[test]
fn node_may_reuse_its_own_identity() {
    let mut network = Pallet::new(config());
    assert_eq!(register(&mut network, 1, 11, peer(1)), Ok(()));
    assert_eq!(
        network.do_update_bootnode_peer_id(1, 1, Some(PeerInfo { peer_id: peer(1), multiaddr: None })),
        Ok(())
    );
    assert_eq!(
        network.do_update_client_peer_id(1, 1, Some(PeerInfo { peer_id: peer(1), multiaddr: None })),
        Ok(())
    );
    assert_eq!(network.do_update_peer_id(1, 1, PeerInfo { peer_id: peer(1), multiaddr: None }), Ok(()));
}

#[test]
fn identity_of_node_zero_is_protected() {
    let mut network = Pallet::new(config());
    assert_eq!(register(&mut network, 0, 10, peer(1)), Ok(()));
    assert_eq!(register(&mut network, 5, 15, peer(5)), Ok(()));
    assert_eq!(
        network.do_update_peer_id(1, 5, PeerInfo { peer_id: peer(1), multiaddr: None }),
        Err(PalletError::PeerIdExist)
    );
    assert_eq!(
        network.do_update_bootnode_peer_id(1, 5, Some(PeerInfo { peer_id: peer(1), multiaddr: None })),
        Err(PalletError::PeerIdExist)
    );
}

#[test]
fn unique_tag_claimed_elsewhere_is_refused_even_if_recorded() {
    let mut network = Pallet::new(config());
    assert_eq!(register(&mut network, 1, 11, peer(1)), Ok(()));
    assert_eq!(register(&mut network, 2, 12, peer(2)), Ok(()));
    assert_eq!(network.do_update_unique(1, 1, Some(b"tag".to_vec())), Ok(()));
    network.ids.unique_params.insert((1, b"tag".to_vec()), 2);
    assert_eq!(network.do_update_unique(1, 1, Some(b"tag".to_vec())), Err(PalletError::UniqueParameterTaken));
    assert_eq!(network.ids.unique_params.get(&(1, b"tag".to_vec())), Some(&2));
    assert_eq!(network.get_subnet_node(1, 1).unwrap().unique, Some(b"tag".to_vec()));
}

#[test]
fn perform_remove_takes_registered_node_out_of_queue() {
    let mut network = Pallet::new(config());
    assert_eq!(register(&mut network, 1, 11, peer(1)), Ok(()));
    assert_eq!(register(&mut network, 2, 12, peer(2)), Ok(()));
    network.perform_remove_subnet_node(1, 1);
    assert_eq!(network.stats.queue.get(&1), Some(&vec![2]));
    assert!(network.get_subnet_node(1, 1).is_none());
    network.perform_remove_subnet_node(1, 9);
    assert_eq!(network.stats.queue.get(&1), Some(&vec![2]));
}
