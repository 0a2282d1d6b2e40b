use blvm_fibre::address::SocketAddress;
use blvm_fibre::module::{register_peer, EventPayload, ModuleError, PeerAction};
use blvm_fibre::send::{BlockSend, BlockSource, SendAction, SendEvent};
use blvm_fibre::startup::{register_static_peers, udp_init_error, StartupPlan};
use blvm_fibre::wire::FibreConfig;
use blvm_fibre::{FibreModule, FibreModuleConfig, FibrePeerEntry};

fn config(enabled: bool) -> FibreModuleConfig {
    FibreModuleConfig::with_fibre(FibreConfig {
        enabled,
        fec_parity_ratio: "0.2".to_string(),
        chunk_timeout_secs: 2,
        max_retries: 3,
        max_assemblies: 10,
    })
}

fn came(addr: &str) -> EventPayload {
    EventPayload::CompanionUdpPeerRegistered {
        p2p_peer_addr: "10.0.0.2:8333".to_string(),
        udp_addr: addr.to_string(),
    }
}

fn gone() -> EventPayload {
    EventPayload::CompanionUdpPeerUnregistered { p2p_peer_addr: "10.0.0.2:8333".to_string() }
}

/// What a send asks for, first and after each event.
fn actions(events: Vec<SendEvent>) -> Vec<String> {
    let mut send = BlockSend::new([7; 32], BlockSource::NewBlock);
    let mut asked = vec![format!("{:?}", send.action())];
    for event in events {
        send = send.step(event);
        asked.push(format!("{:?}", send.action()));
    }
    asked
}

fn peers() -> SendEvent {
    SendEvent::Peers(vec!["a".to_string(), "b".to_string(), "c".to_string()])
}

#[test]
fn new_block_begins_a_send() {
    let module = FibreModule::new(true);
    let payload = EventPayload::NewBlock { block_hash: [9; 32] };
    let send = module.on_new_block(&payload, true).unwrap().unwrap();
    assert_eq!(send.block_hash(), [9; 32]);
    assert_eq!(send.source(), BlockSource::NewBlock);
    assert_eq!(send.source().label(), "NewBlock");
    assert!(matches!(send.action(), SendAction::FetchBlock));
    assert!(module.on_block_mined(&payload, true).unwrap().is_none());
    assert!(module.on_new_block(&EventPayload::Other, true).unwrap().is_none());
}

#[test]
fn mined_block_begins_a_send() {
    let module = FibreModule::new(false);
    let payload = EventPayload::BlockMined { block_hash: [3; 32] };
    let send = module.on_block_mined(&payload, true).unwrap().unwrap();
    assert_eq!(send.block_hash(), [3; 32]);
    assert_eq!(send.source().label(), "BlockMined");
    assert!(matches!(send.action(), SendAction::FetchBlock));
    assert!(module.on_new_block(&payload, true).unwrap().is_none());
}

#[test]
fn block_events_need_the_node_api() {
    let module = FibreModule::new(true);
    for payload in [EventPayload::NewBlock { block_hash: [0; 32] }, EventPayload::Other] {
        for r in [module.on_new_block(&payload, false), module.on_block_mined(&payload, false)] {
            let ModuleError::Other(message) = r.unwrap_err();
            assert_eq!(message, "blvm-fibre: node_api required");
        }
    }
}

#[test]
fn companion_peer_is_registered_and_removed() {
    let module = FibreModule::new(true);
    match module.on_companion_udp_peer_registered(&came("10.0.0.2:8334")) {
        PeerAction::Register { peer_id, udp_addr } => {
            assert_eq!(peer_id, "10.0.0.2:8333");
            assert_eq!(udp_addr, SocketAddress::V4 { ipv4: 0x0a00_0002, port: 8334 });
        }
        other => panic!("{:?}", other),
    }
    match module.on_companion_udp_peer_unregistered(&gone()) {
        PeerAction::Unregister { peer_id } => assert_eq!(peer_id, "10.0.0.2:8333"),
        other => panic!("{:?}", other),
    }
}

#[test]
fn companion_peer_with_a_bad_address_is_rejected() {
    match FibreModule::new(true).on_companion_udp_peer_registered(&came("10.0.0.2")) {
        PeerAction::RejectAddress { peer_id, bad_addr } => {
            assert_eq!(peer_id, "10.0.0.2:8333");
            assert_eq!(bad_addr, "10.0.0.2");
        }
        other => panic!("{:?}", other),
    }
}

#[test]
fn companion_events_are_ignored_when_registration_is_off() {
    let module = FibreModule::new(false);
    assert!(matches!(
        module.on_companion_udp_peer_registered(&came("10.0.0.2:8334")),
        PeerAction::Keep
    ));
    assert!(matches!(module.on_companion_udp_peer_unregistered(&gone()), PeerAction::Keep));
}

#[test]
fn handlers_ignore_each_others_events() {
    let module = FibreModule::new(true);
    assert!(matches!(module.on_companion_udp_peer_registered(&gone()), PeerAction::Keep));
    assert!(matches!(
        module.on_companion_udp_peer_unregistered(&came("10.0.0.2:8334")),
        PeerAction::Keep
    ));
}

#[test]
fn help_names_the_settings() {
    let help = FibreModule::new(true).help();
    let expected = "blvm-fibre — UDP/FEC block relay for blvm-node.\n\
             Configure module `config.toml` / `[modules.blvm-fibre]` (FibreConfig + udp_bind or udp_follow_node_tcp_plus_one).\n\
             Node injects MODULE_CONFIG_NODE_P2P_LISTEN_* on spawn when using udp_follow_node_tcp_plus_one (UDP = TCP+1 like in-process FIBRE).\n\
             Capabilities: read_blockchain, subscribe_events, queue_inbound_block.\n\
             Optional `[[fibre_peers]]`; `register_peers_from_p2p` subscribes to CompanionUdpPeer* for NODE_FIBRE peers.";
    assert_eq!(help, expected);
}

#[test]
fn every_peer_gets_the_block_though_sends_fail() {
    assert_eq!(
        actions(vec![
            SendEvent::BlockFetched,
            SendEvent::Encoded,
            peers(),
            SendEvent::SendFailed,
            SendEvent::Sent,
            SendEvent::SendFailed,
        ]),
        [
            "FetchBlock",
            "EncodeBlock",
            "ListPeers",
            "SendTo(\"a\")",
            "SendTo(\"b\")",
            "SendTo(\"c\")",
            "Finish"
        ]
    );
}

#[test]
fn block_is_encoded_even_for_no_peers() {
    assert_eq!(
        actions(vec![SendEvent::BlockFetched, SendEvent::Encoded, SendEvent::Peers(vec![])]),
        ["FetchBlock", "EncodeBlock", "ListPeers", "Finish"]
    );
}

#[test]
fn missing_block_is_not_sent() {
    for event in [SendEvent::BlockMissing, SendEvent::FetchFailed] {
        assert_eq!(
            actions(vec![event, SendEvent::Encoded, peers()]),
            ["FetchBlock", "Finish", "Finish", "Finish"]
        );
    }
}

#[test]
fn block_that_cannot_be_encoded_is_not_sent() {
    assert_eq!(
        actions(vec![SendEvent::BlockFetched, SendEvent::EncodeFailed, peers(), SendEvent::Sent]),
        ["FetchBlock", "EncodeBlock", "Finish", "Finish", "Finish"]
    );
}

#[test]
fn events_that_answer_nothing_change_nothing() {
    assert_eq!(
        actions(vec![SendEvent::Sent, SendEvent::Encoded, SendEvent::BlockFetched, peers()]),
        ["FetchBlock", "FetchBlock", "FetchBlock", "EncodeBlock", "EncodeBlock"]
    );
}

#[test]
fn static_peers_keep_their_order() {
    let mut c = config(true);
    for (peer_id, udp_addr) in [("a", "1.2.3.4:5"), ("b", "bad"), ("c", "[::1]:6")] {
        c.fibre_peers.push(FibrePeerEntry {
            peer_id: peer_id.to_string(),
            udp_addr: udp_addr.to_string(),
        });
    }
    let actions = register_static_peers(&c.fibre_peers);
    assert_eq!(actions.len(), 3);
    assert!(matches!(
        &actions[0],
        PeerAction::Register { peer_id, udp_addr: SocketAddress::V4 { ipv4: 0x0102_0304, port: 5 } }
            if peer_id == "a"
    ));
    assert!(matches!(
        &actions[1],
        PeerAction::RejectAddress { peer_id, bad_addr } if peer_id == "b" && bad_addr == "bad"
    ));
    assert!(matches!(
        &actions[2],
        PeerAction::Register { peer_id, udp_addr: SocketAddress::V6 { ipv6: 1, port: 6, .. } }
            if peer_id == "c"
    ));
    match StartupPlan::new(&c, None, None).unwrap() {
        StartupPlan::Relay { peers, .. } => assert_eq!(peers.len(), 3),
        other => panic!("{:?}", other),
    }
}

#[test]
fn peer_is_registered_at_the_address_of_its_text() {
    match register_peer(&"p".to_string(), &"[2001:db8::1]:9".to_string()) {
        PeerAction::Register { peer_id, udp_addr } => {
            assert_eq!(peer_id, "p");
            assert_eq!(
                udp_addr,
                SocketAddress::V6 { ipv6: (0x2001_0db8 << 96) + 1, port: 9, scope_id: 0 }
            );
        }
        other => panic!("{:?}", other),
    }
}

#[test]
fn disabled_relay_starts_off() {
    let mut c = config(false);
    c.udp_bind = "bad".to_string();
    let plan = StartupPlan::new(&c, None, None).unwrap();
    assert!(matches!(plan, StartupPlan::Off));
    assert!(matches!(
        plan.module().on_companion_udp_peer_registered(&came("10.0.0.2:8334")),
        PeerAction::Keep
    ));
}

#[test]
fn enabled_relay_listens_and_registers() {
    let c = config(true);
    let plan = StartupPlan::new(&c, None, None).unwrap();
    match &plan {
        StartupPlan::Relay { listen, peers, register_peers_from_p2p } => {
            assert_eq!(*listen, SocketAddress::V4 { ipv4: 0, port: 8334 });
            assert!(peers.is_empty());
            assert!(*register_peers_from_p2p);
        }
        other => panic!("{:?}", other),
    }
    assert!(matches!(
        plan.module().on_companion_udp_peer_unregistered(&gone()),
        PeerAction::Unregister { .. }
    ));
    let mut quiet = config(true);
    quiet.register_peers_from_p2p = false;
    let plan = StartupPlan::new(&quiet, None, None).unwrap();
    assert!(matches!(
        plan.module().on_companion_udp_peer_unregistered(&gone()),
        PeerAction::Keep
    ));
}

#[test]
fn startup_fails_as_the_address_does() {
    let mut c = config(true);
    c.udp_bind = "bad".to_string();
    let ModuleError::Other(message) = StartupPlan::new(&c, None, None).unwrap_err();
    assert_eq!(
        message,
        "blvm-fibre: invalid udp_bind \"bad\": invalid socket address syntax"
    );
    let ModuleError::Other(message) = udp_init_error("in use");
    assert_eq!(message, "blvm-fibre: UDP init: in use");
}

#[test]
fn peer_is_registered_at_a_scoped_address() {
    match register_peer(&"p".to_string(), &"[fe80::2%3]:9".to_string()) {
        PeerAction::Register { peer_id, udp_addr } => {
            assert_eq!(peer_id, "p");
            assert_eq!(
                udp_addr,
                SocketAddress::V6 { ipv6: (0xfe80 << 112) + 2, port: 9, scope_id: 3 }
            );
        }
        other => panic!("{:?}", other),
    }
}
