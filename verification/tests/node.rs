use rusty_lightning::hex::hex_str;
use rusty_lightning::keys::{hex_to_compressed_pubkey, node_id, PublicKey};
use rusty_lightning::network::Network;
use rusty_lightning::node::{ConnectPlan, Node, StartupEvent, StartupFault, StartupStage};

const KEY: &str = "0279be667ef9dcbbac55a06295ce870b07029bfcdb2dce28d959f2815b16f81798";

fn key() -> PublicKey {
    hex_to_compressed_pubkey(KEY).unwrap()
}

fn start() -> Node {
    Node::new("/data".to_string(), "test").ok().unwrap()
}

/// A node that has come as far as loading its monitors.
fn seeded() -> Node {
    let mut node = start();
    node.advance(StartupEvent::SeedFile(Some(vec![7; 32])));
    node.derive_keys();
    node
}

#[test]
fn a_node_starts_on_a_known_network() {
    let node = start();
    assert_eq!(node.network, Network::Testnet);
    assert_eq!(node.stage, StartupStage::ReadSeed);
    assert_eq!(node.seed_path(), "/data/key_seed");
    assert_eq!(node.monitors_path(), "/data/monitors");
    assert_eq!(node.manager_path(), "/data/manager_data");
}

#[test]
fn a_node_does_not_start_on_an_unknown_network() {
    let node = Node::new("/data".to_string(), "signet");
    assert_eq!(node.err(), Some(StartupFault::UnknownNetwork));
}

#[test]
fn a_stored_seed_is_used() {
    let node = seeded();
    assert_eq!(node.seed, Some([7; 32]));
    assert_eq!(node.stage, StartupStage::LoadMonitors);
}

#[test]
fn a_malformed_seed_is_refused() {
    for length in [0, 31, 33] {
        let mut node = start();
        node.advance(StartupEvent::SeedFile(Some(vec![7; length])));
        assert_eq!(node.stage, StartupStage::Refuse(StartupFault::MalformedSeed));
        assert_eq!(node.seed, None);
    }
}

#[test]
fn a_drawn_seed_is_stored_before_it_is_used() {
    let random: [u8; 32] = core::array::from_fn(|i| i as u8 + 1);
    let mut node = start();
    node.advance(StartupEvent::SeedFile(None));
    assert_eq!(node.stage, StartupStage::DrawSeed);
    node.advance(StartupEvent::Random(random));
    assert_eq!(node.stage, StartupStage::StoreSeed);
    assert_eq!(node.seed, Some(random));
    node.advance(StartupEvent::SeedStored);
    assert_eq!(node.stage, StartupStage::DeriveKeys);
    node.derive_keys();
    assert_eq!(node.stage, StartupStage::LoadMonitors);
    assert_eq!(node.seed, Some(random));
}

#[test]
fn a_seed_without_wallet_keys_is_refused() {
    let mut node = start();
    node.advance(StartupEvent::SeedFile(Some(vec![7; 32])));
    node.advance(StartupEvent::ImportKeys(None));
    assert_eq!(node.stage, StartupStage::Refuse(StartupFault::UnusableSeed));
}

#[test]
fn channels_are_restored_from_their_state() {
    for count in [0, 3] {
        let mut node = seeded();
        node.advance(StartupEvent::MonitorsLoaded(count));
        assert_eq!(node.stage, StartupStage::OpenManager);
        node.advance(StartupEvent::ManagerOpened(true));
        assert_eq!(node.stage, StartupStage::RestoreChannels);
    }
}

#[test]
fn a_node_without_channels_begins_anew() {
    let mut node = seeded();
    node.advance(StartupEvent::MonitorsLoaded(0));
    node.advance(StartupEvent::ManagerOpened(false));
    assert_eq!(node.stage, StartupStage::CreateChannels);
}

#[test]
fn monitors_without_channel_state_are_refused() {
    let mut node = seeded();
    node.advance(StartupEvent::MonitorsLoaded(1));
    node.advance(StartupEvent::ManagerOpened(false));
    assert_eq!(node.stage, StartupStage::Refuse(StartupFault::LostChannelState));
}

#[test]
fn only_the_awaited_event_is_awaited() {
    let node = start();
    assert!(node.awaits_event(&StartupEvent::SeedFile(None)));
    assert!(!node.awaits_event(&StartupEvent::Random([0; 32])));
    assert!(!node.awaits_event(&StartupEvent::SeedStored));
    assert!(!node.awaits_event(&StartupEvent::ImportKeys(None)));
    assert!(!node.awaits_event(&StartupEvent::MonitorsLoaded(0)));
    assert!(!node.awaits_event(&StartupEvent::ManagerOpened(true)));
    let node = seeded();
    assert!(node.awaits_event(&StartupEvent::MonitorsLoaded(0)));
    assert!(!node.awaits_event(&StartupEvent::SeedFile(None)));
}

#[test]
fn a_node_listens_on_all_interfaces() {
    let plan = Node::listen_incoming(9735);
    assert_eq!(plan.address, [0, 0, 0, 0]);
    assert_eq!(plan.port, 9735);
    assert_eq!(plan.report, "Listening on port 9735...");
}

#[test]
fn a_line_with_key_and_address_is_followed() {
    for address in ["127.0.0.1:9735", "", "é@x"] {
        let line = format!("{}@{}", KEY, address);
        let plan = Node::connect_peer(Some(&line)).unwrap();
        assert_eq!(plan.refusal(true), None);
        assert_eq!(
            plan.refusal(false).unwrap(),
            "Couldn't parse host:port into a socket address"
        );
        assert!(plan.answer());
        assert_eq!(plan, ConnectPlan::Dial { key: key(), address: address.to_string() });
    }
}

#[test]
fn a_line_that_is_not_text_is_answered_no() {
    let plan = Node::connect_peer(None).unwrap();
    assert_eq!(plan, ConnectPlan::Unreadable);
    assert!(!plan.answer());
    assert_eq!(plan.refusal(true), None);
}

#[test]
fn a_line_without_a_key_is_refused() {
    for line in [format!("{}@127.0.0.1:9735", "0".repeat(66)), "z".repeat(66)] {
        let plan = Node::connect_peer(Some(&line)).unwrap();
        assert_eq!(plan, ConnectPlan::BadKey);
        assert!(plan.answer());
        assert_eq!(plan.refusal(true).unwrap(), "Bad PubKey for remote node");
    }
}

#[test]
fn a_line_without_a_separator_is_refused() {
    for rest in [" 127.0.0.1:9735", "é"] {
        let plan = Node::connect_peer(Some(&format!("{}{}", KEY, rest))).unwrap();
        assert_eq!(plan, ConnectPlan::BadLine);
        assert!(plan.answer());
        assert_eq!(plan.refusal(true).unwrap(), "Invalid line, should be c pubkey@host:port");
    }
}

#[test]
fn a_line_that_is_too_short_has_no_answer() {
    assert_eq!(Node::connect_peer(Some("")), None);
    assert_eq!(Node::connect_peer(Some(&KEY[..65])), None);
    assert_eq!(Node::connect_peer(Some(KEY)), None);
    assert_eq!(Node::connect_peer(Some(&format!("{}é", &KEY[..65]))), None);
}

#[test]
fn a_line_is_judged_by_the_key_it_is_given() {
    let line = format!("{}@host", "z".repeat(66));
    assert_eq!(Node::plan_connection(&line, None), ConnectPlan::BadKey);
    assert_eq!(Node::plan_connection(&line, Some(key())), ConnectPlan::Dial {
        key: key(),
        address: "host".to_string(),
    });
}

#[test]
fn the_connected_nodes_are_listed() {
    assert_eq!(Node::get_peers(&vec![]), ("Connected nodes: ".to_string(), false));
    let other = node_id(&[1; 32]).unwrap();
    let (line, answer) = Node::get_peers(&vec![key(), other]);
    assert_eq!(line, format!("Connected nodes: {}, {}, ", KEY, hex_str(&other.to_bytes())));
    assert!(!answer);
}
