use blvm_fibre::address::{read_socket_address, IpAddress, SocketAddress};
use blvm_fibre::config::{
    default_register_peers_from_p2p, default_udp_bind, invalid_udp_bind, ConfigErrorKind,
};
use blvm_fibre::{FibreConfig, FibreModuleConfig, FibrePeerEntry};

fn fibre() -> FibreConfig {
    FibreConfig {
        enabled: true,
        fec_parity_ratio: format!("{}", 0.5f64),
        chunk_timeout_secs: 2,
        max_retries: 3,
        max_assemblies: 10,
    }
}

fn following() -> FibreModuleConfig {
    let mut config = FibreModuleConfig::with_fibre(fibre());
    config.udp_follow_node_tcp_plus_one = true;
    config
}

#[test]
fn defaults() {
    assert_eq!(default_udp_bind(), "0.0.0.0:8334");
    assert!(default_register_peers_from_p2p());
    let config = FibreModuleConfig::with_fibre(fibre());
    assert!(config.fibre.enabled);
    assert_eq!(config.fibre.max_assemblies, 10);
    assert_eq!(config.udp_bind, "0.0.0.0:8334");
    assert!(config.fibre_peers.is_empty());
    assert!(!config.udp_follow_node_tcp_plus_one);
    assert!(config.register_peers_from_p2p);
    let bound = SocketAddress::V4 { ipv4: 0, port: 8334 };
    assert_eq!(config.udp_socket_addr().unwrap(), bound);
    assert_eq!(config.resolve_udp_listen_addr(None, None).unwrap(), bound);
}

#[test]
fn bad_bind_is_reported_in_quotes() {
    let mut config = FibreModuleConfig::with_fibre(fibre());
    config.udp_bind = "no\"where".to_string();
    let e = config.udp_socket_addr().unwrap_err();
    assert_eq!(e.kind, ConfigErrorKind::InvalidInput);
    assert_eq!(
        e.message,
        "blvm-fibre: invalid udp_bind \"no\\\"where\": invalid socket address syntax"
    );
    assert_eq!(config.resolve_udp_listen_addr(Some("1"), None).unwrap_err().message, e.message);
    assert_eq!(
        invalid_udp_bind("'x'").message,
        "blvm-fibre: invalid udp_bind 'x': invalid socket address syntax"
    );
}

#[test]
fn following_takes_the_next_port() {
    let config = following();
    assert_eq!(
        config.resolve_udp_listen_addr(Some("8333"), None).unwrap(),
        SocketAddress::V4 { ipv4: 0, port: 8334 }
    );
    assert_eq!(
        config.resolve_udp_listen_addr(Some("8333"), Some("10.0.0.1")).unwrap(),
        SocketAddress::new(IpAddress::V4(0x0a00_0001), 8334)
    );
    assert_eq!(
        config.resolve_udp_listen_addr(Some("18444"), Some("::1")).unwrap(),
        SocketAddress::V6 { ipv6: 1, port: 18445, scope_id: 0 }
    );
}

#[test]
fn following_the_last_port_stays_there() {
    assert_eq!(
        following().resolve_udp_listen_addr(Some("65535"), None).unwrap(),
        SocketAddress::V4 { ipv4: 0, port: 65535 }
    );
}

#[test]
fn following_needs_a_port() {
    let e = following().resolve_udp_listen_addr(None, Some("bad")).unwrap_err();
    assert_eq!(e.kind, ConfigErrorKind::NotFound);
    assert_eq!(
        e.message,
        "blvm-fibre: udp_follow_node_tcp_plus_one requires MODULE_CONFIG_NODE_P2P_LISTEN_PORT \
         (set automatically when the node spawns this module)"
    );
}

#[test]
fn following_refuses_a_bad_port() {
    for (port, reason) in [
        ("", "cannot parse integer from empty string"),
        ("83a", "invalid digit found in string"),
        ("70000", "number too large to fit in target type"),
    ] {
        let e = following().resolve_udp_listen_addr(Some(port), Some("bad")).unwrap_err();
        assert_eq!(e.kind, ConfigErrorKind::InvalidInput);
        assert_eq!(
            e.message,
            format!("blvm-fibre: invalid MODULE_CONFIG_NODE_P2P_LISTEN_PORT: {}", reason)
        );
    }
}

#[test]
fn following_refuses_a_bad_ip() {
    let e = following().resolve_udp_listen_addr(Some("1"), Some("fe80::1%2")).unwrap_err();
    assert_eq!(e.kind, ConfigErrorKind::InvalidInput);
    assert_eq!(
        e.message,
        "blvm-fibre: invalid MODULE_CONFIG_NODE_P2P_LISTEN_IP: invalid IP address syntax"
    );
}

#[test]
fn following_ignores_the_bind_address() {
    let mut config = following();
    config.udp_bind = "nonsense".to_string();
    assert_eq!(
        config.resolve_udp_listen_addr(Some("1"), None).unwrap(),
        following().resolve_udp_listen_addr(Some("1"), None).unwrap()
    );
}

#[test]
fn binding_ignores_the_node() {
    let config = FibreModuleConfig::with_fibre(fibre());
    assert_eq!(
        config.resolve_udp_listen_addr(Some("x"), Some("y")).unwrap(),
        config.udp_socket_addr().unwrap()
    );
}

#[test]
fn following_is_like_binding_to_the_next_port() {
    assert_eq!(
        following().resolve_udp_listen_addr(Some("8333"), Some("2001:db8::1")).ok(),
        read_socket_address("[2001:db8::1]:8334")
    );
}

#[test]
fn context_map_holds_the_settings() {
    let mut config = following();
    config.fibre_peers.push(FibrePeerEntry {
        peer_id: "a".to_string(),
        udp_addr: "127.0.0.1:1".to_string(),
    });
    config.fibre.enabled = false;
    let m = config.to_context_map();
    assert_eq!(m.len(), 7);
    assert_eq!(m.get("blvm-fibre.udp_bind").unwrap(), "0.0.0.0:8334");
    assert_eq!(m.get("blvm-fibre.enabled").unwrap(), "false");
    assert_eq!(m.get("blvm-fibre.fec_parity_ratio").unwrap(), "0.5");
    assert_eq!(m.get("blvm-fibre.chunk_timeout_secs").unwrap(), "2");
    assert_eq!(m.get("blvm-fibre.fibre_peers_count").unwrap(), "1");
    assert_eq!(m.get("blvm-fibre.udp_follow_node_tcp_plus_one").unwrap(), "true");
    assert_eq!(m.get("blvm-fibre.register_peers_from_p2p").unwrap(), "true");
    assert!(m.get("blvm-fibre.max_retries").is_none());
}

#[test]
fn context_entries_are_the_context_map() {
    let config = following();
    let m = config.to_context_map();
    let entries = config.context_entries();
    assert_eq!(entries.len(), m.len());
    for (key, value) in entries {
        assert_eq!(m.get(&key), Some(&value));
    }
}

#[test]
fn written_bind_addresses_are_read_back() {
    for (bind, expected) in [
        ("0.0.0.0:0", SocketAddress::V4 { ipv4: 0, port: 0 }),
        ("192.168.1.20:65535", SocketAddress::V4 { ipv4: 0xc0a8_0114, port: 65535 }),
        ("[::]:8334", SocketAddress::V6 { ipv6: 0, port: 8334, scope_id: 0 }),
        ("[::ffff:127.0.0.1]:1", SocketAddress::V6 {
            ipv6: 0xffff_7f00_0001,
            port: 1,
            scope_id: 0,
        }),
        ("[fe80::1%4294967295]:9", SocketAddress::V6 {
            ipv6: (0xfe80 << 112) + 1,
            port: 9,
            scope_id: u32::MAX,
        }),
    ] {
        let mut config = FibreModuleConfig::with_fibre(fibre());
        config.udp_bind = bind.to_string();
        assert_eq!(config.udp_socket_addr().ok(), Some(expected), "{}", bind);
        assert_eq!(config.resolve_udp_listen_addr(None, None).ok(), Some(expected), "{}", bind);
    }
}

#[test]
fn context_entries_keep_their_order() {
    let entries = FibreModuleConfig::with_fibre(fibre()).context_entries();
    let expected = [
        ("blvm-fibre.udp_bind", "0.0.0.0:8334"),
        ("blvm-fibre.enabled", "true"),
        ("blvm-fibre.fec_parity_ratio", "0.5"),
        ("blvm-fibre.chunk_timeout_secs", "2"),
        ("blvm-fibre.fibre_peers_count", "0"),
        ("blvm-fibre.udp_follow_node_tcp_plus_one", "false"),
        ("blvm-fibre.register_peers_from_p2p", "true"),
    ];
    assert_eq!(entries.len(), expected.len());
    for (entry, (key, value)) in entries.iter().zip(expected) {
        assert_eq!(entry.0, key);
        assert_eq!(entry.1, value);
    }
}
