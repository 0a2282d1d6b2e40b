//! How the module starts: whether the relay runs, where it listens and whom it knows.

use crate::address;
use crate::address::SocketAddress;
use crate::config;
use crate::config::{ConfigError, FibreModuleConfig, FibrePeerEntry};
use crate::module;
use crate::module::{register_peer, FibreModule, ModuleError, PeerAction};
use crate::text;
use crate::written;
use vstd::prelude::*;
use vstd::string::*;

verus! {

/// What to set up when the module starts.
#[derive(Debug)]
pub enum StartupPlan {
    /// The relay is switched off.
    Off,
    /// The relay runs.
    Relay {
        /// The UDP address to listen on.
        listen: SocketAddress,
        /// What becomes of each static peer, in the order of the configuration.
        peers: Vec<PeerAction>,
        /// Whether peers that the node meets are registered too.
        register_peers_from_p2p: bool,
    },
}

/// What becomes of the static peers: each is registered exactly when its address can be read.
pub open spec fn static_registrations(entries: Seq<FibrePeerEntry>) -> Seq<
    module::PeerActionView,
> {
    entries.map_values(|e: FibrePeerEntry| module::registration(e.peer_id@, e.udp_addr@))
}

/// The actions, over the texts.
pub open spec fn action_views(actions: Seq<PeerAction>) -> Seq<module::PeerActionView> {
    actions.map_values(|a: PeerAction| a@)
}

/// Decides for each static peer whether it is registered.
pub fn register_static_peers(entries: &Vec<FibrePeerEntry>) -> (actions: Vec<PeerAction>)
    ensures
        action_views(actions@) == static_registrations(entries@),
{
    let mut actions: Vec<PeerAction> = Vec::new();
    let mut i: usize = 0;
    while i < entries.len()
        invariant
            i <= entries.len(),
            action_views(actions@) == static_registrations(entries@).take(i as int),
        decreases entries.len() - i,
    {
        let ghost before = action_views(actions@);
        let action: PeerAction = register_peer(&entries[i].peer_id, &entries[i].udp_addr);
        let ghost view = action@;
        actions.push(action);
        assert(action_views(actions@) == before.push(view));
        i = i + 1;
    }
    actions
}

/// Whether `r` is how the module starts with this configuration: off where the relay is disabled,
/// otherwise listening at the resolved address, or failing as the resolution does.
pub open spec fn is_startup(
    r: Result<StartupPlan, ModuleError>,
    config: FibreModuleConfig,
    port: Option<Seq<char>>,
    ip: Option<Seq<char>>,
) -> bool {
    match r {
        Ok(StartupPlan::Off) => !config.fibre.enabled,
        Ok(StartupPlan::Relay { listen, peers, register_peers_from_p2p }) => {
            &&& config.fibre.enabled
            &&& config.listen_address(port, ip) == Ok::<_, (config::ConfigErrorKind, Seq<char>)>(
                listen,
            )
            &&& action_views(peers@) == static_registrations(config.fibre_peers@)
            &&& register_peers_from_p2p == config.register_peers_from_p2p
        },
        Err(e) => {
            &&& config.fibre.enabled
            &&& config.listen_address(port, ip) matches Err((_, message)) && e@ == message
        },
    }
}

impl StartupPlan {
    /// Plans the start. `node_port` and `node_ip` are the node's P2P listen port and address, where
    /// the environment gives them.
    pub fn new(config: &FibreModuleConfig, node_port: Option<&str>, node_ip: Option<&str>) -> (r:
        Result<StartupPlan, ModuleError>)
        ensures
            is_startup(r, *config, config::setting(node_port), config::setting(node_ip)),
    {
        if !config.fibre.enabled {
            return Ok(StartupPlan::Off);
        }
        match config.resolve_udp_listen_addr(node_port, node_ip) {
            Ok(listen) => Ok(
                StartupPlan::Relay {
                    listen,
                    peers: register_static_peers(&config.fibre_peers),
                    register_peers_from_p2p: config.register_peers_from_p2p,
                },
            ),
            Err(e) => Err(ModuleError::Other(e.message)),
        }
    }

    /// Whether the module that goes with the plan registers peers that the node meets.
    pub open spec fn registers_peers(self) -> bool {
        match self {
            StartupPlan::Off => false,
            StartupPlan::Relay { register_peers_from_p2p, .. } => register_peers_from_p2p,
        }
    }

    /// The module that goes with the plan.
    pub fn module(&self) -> (m: FibreModule)
        ensures
            m.registers_peers() == self.registers_peers(),
    {
        match self {
            StartupPlan::Off => FibreModule::new(false),
            StartupPlan::Relay { register_peers_from_p2p, .. } => FibreModule::new(
                *register_peers_from_p2p,
            ),
        }
    }
}

/// The error when the UDP socket cannot be set up, given the reason.
pub fn udp_init_error(reason: &str) -> (e: ModuleError)
    ensures
        e@ == "blvm-fibre: UDP init: "@ + reason@,
{
    let mut message: String = "blvm-fibre: UDP init: ".to_owned();
    message.append(reason);
    ModuleError::Other(message)
}

/// A disabled relay starts whatever the addresses are, listens nowhere, and its module leaves the
/// peers alone.
pub proof fn disabled_relay_is_off(
    r: Result<StartupPlan, ModuleError>,
    config: FibreModuleConfig,
    port: Option<Seq<char>>,
    ip: Option<Seq<char>>,
    m: FibreModule,
    payload: module::EventPayload,
)
    requires
        is_startup(r, config, port, ip),
        !config.fibre.enabled,
        r matches Ok(plan) ==> m.registers_peers() == plan.registers_peers(),
    ensures
        r == Ok::<StartupPlan, ModuleError>(StartupPlan::Off),
        m.peer_action(payload) == module::PeerActionView::Keep,
{
}

/// Static peers do not influence each other: one with an unreadable address leaves the others as
/// they are, and the order of the configuration is kept.
pub proof fn static_peers_are_independent(
    before: Seq<FibrePeerEntry>,
    entry: FibrePeerEntry,
    after: Seq<FibrePeerEntry>,
)
    ensures
        static_registrations(before.push(entry) + after) == static_registrations(before).push(
            module::registration(entry.peer_id@, entry.udp_addr@),
        ) + static_registrations(after),
{
}

/// The module starts off exactly when the relay is disabled; otherwise it listens where the
/// configuration resolves to, and fails with the message with which the resolution fails.
pub proof fn start_follows_the_resolution(
    config: FibreModuleConfig,
    port: Option<&str>,
    ip: Option<&str>,
    resolved: Result<SocketAddress, ConfigError>,
    r: Result<StartupPlan, ModuleError>,
)
    requires
        call_ensures(FibreModuleConfig::resolve_udp_listen_addr, (&config, port, ip), resolved),
        call_ensures(StartupPlan::new, (&config, port, ip), r),
    ensures
        r matches Ok(StartupPlan::Off) <==> !config.fibre.enabled,
        config.fibre.enabled ==> match resolved {
            Ok(a) => r matches Ok(StartupPlan::Relay { listen, .. }) && listen == a,
            Err(e) => r matches Err(ModuleError::Other(message)) && message@ == e.message@,
        },
{
}

/// An enabled relay that follows the node starts at the node's IP address, and at the port after
/// the node's: every port but the last has one.
pub proof fn following_start_listens_at_the_next_port(
    config: FibreModuleConfig,
    port_text: &str,
    port: u16,
    ip_text: Option<&str>,
    r: Result<StartupPlan, ModuleError>,
)
    requires
        config.fibre.enabled,
        config.udp_follow_node_tcp_plus_one,
        text::after_plus(port_text@).len() > 0,
        text::digits_value(text::after_plus(port_text@), 10) == Some(port as int),
        call_ensures(StartupPlan::new, (&config, Some(port_text), ip_text), r),
    ensures
        port < 65535 ==> ip_text is None ==> (r matches Ok(StartupPlan::Relay { listen, .. })
            && listen == (SocketAddress::V4 { ipv4: 0, port: (port + 1) as u16 })),
        port == 65535 ==> ip_text is None ==> (r matches Ok(StartupPlan::Relay { listen, .. })
            && listen == (SocketAddress::V4 { ipv4: 0, port })),
        ip_text matches Some(ip) ==> match address::ip_address(ip@) {
            Some(address::IpAddress::V4(ipv4)) => (r matches Ok(StartupPlan::Relay { listen, .. })
                && listen == (SocketAddress::V4 {
                ipv4,
                port: if port < 65535 {
                    (port + 1) as u16
                } else {
                    65535
                },
            })),
            Some(address::IpAddress::V6(ipv6)) => (r matches Ok(StartupPlan::Relay { listen, .. })
                && listen == (SocketAddress::V6 {
                ipv6,
                port: if port < 65535 {
                    (port + 1) as u16
                } else {
                    65535
                },
                scope_id: 0,
            })),
            None => r is Err,
        },
{
    text::u16_digits_denote(text::after_plus(port_text@));
    config::any_address_is_zero();
}

/// An enabled relay that does not follow the node starts at the address that `udp_bind` denotes,
/// whatever the node says, and fails where it denotes none.
pub proof fn bound_start_listens_at_the_bind_address(
    config: FibreModuleConfig,
    port: Option<&str>,
    ip: Option<&str>,
    a: SocketAddress,
    r: Result<StartupPlan, ModuleError>,
)
    requires
        config.fibre.enabled,
        !config.udp_follow_node_tcp_plus_one,
        call_ensures(StartupPlan::new, (&config, port, ip), r),
    ensures
        (r matches Ok(StartupPlan::Relay { listen, .. }) && listen == a)
            <==> address::socket_address(config.udp_bind@) == Some(a),
        r is Err <==> address::socket_address(config.udp_bind@) is None,
        config.udp_bind@ == written::socket_text(a)
            ==> (r matches Ok(StartupPlan::Relay { listen, .. }) && listen == a),
{
    written::socket_address_is_read_back(a);
}

/// A relay that follows the node but is told no port, or one that cannot be read, does not start.
pub proof fn following_start_needs_a_port(
    config: FibreModuleConfig,
    port: Option<&str>,
    ip: Option<&str>,
    r: Result<StartupPlan, ModuleError>,
)
    requires
        config.fibre.enabled,
        config.udp_follow_node_tcp_plus_one,
        port matches Some(port_text) ==> {
            ||| text::after_plus(port_text@).len() == 0
            ||| text::digits_value(text::after_plus(port_text@), 10) is None
            ||| text::digits_value(text::after_plus(port_text@), 10)->0 > 65535
        },
        call_ensures(StartupPlan::new, (&config, port, ip), r),
    ensures
        r is Err,
{
    if let Some(port_text) = port {
        text::u16_digits_denote(text::after_plus(port_text@));
    }
}

/// Two configurations that follow the node and differ in `udp_bind` only start alike, and so do two
/// that do not follow it, whatever the node says: both are off, or fail with the same message, or
/// listen at the same address with the same decisions about peers.
pub proof fn what_does_not_decide_does_not_matter(
    a: FibreModuleConfig,
    b: FibreModuleConfig,
    port_a: Option<&str>,
    ip_a: Option<&str>,
    port_b: Option<&str>,
    ip_b: Option<&str>,
    start_a: Result<StartupPlan, ModuleError>,
    start_b: Result<StartupPlan, ModuleError>,
)
    requires
        a.fibre.enabled == b.fibre.enabled,
        a.fibre_peers@ == b.fibre_peers@,
        a.register_peers_from_p2p == b.register_peers_from_p2p,
        a.udp_follow_node_tcp_plus_one == b.udp_follow_node_tcp_plus_one,
        a.udp_follow_node_tcp_plus_one ==> port_a == port_b && ip_a == ip_b,
        !a.udp_follow_node_tcp_plus_one ==> a.udp_bind@ == b.udp_bind@,
        call_ensures(StartupPlan::new, (&a, port_a, ip_a), start_a),
        call_ensures(StartupPlan::new, (&b, port_b, ip_b), start_b),
    ensures
        match (start_a, start_b) {
            (Ok(StartupPlan::Off), Ok(StartupPlan::Off)) => true,
            (
                Ok(StartupPlan::Relay { listen: la, peers: pa, register_peers_from_p2p: ra }),
                Ok(StartupPlan::Relay { listen: lb, peers: pb, register_peers_from_p2p: rb }),
            ) => la == lb && ra == rb && pa@.len() == pb@.len() && forall|i: int|
                0 <= i < pa@.len() ==> (#[trigger] pa@[i])@ == pb@[i]@,
            (Err(ModuleError::Other(ma)), Err(ModuleError::Other(mb))) => ma@ == mb@,
            _ => false,
        },
{
    if let (
        Ok(StartupPlan::Relay { peers: pa, .. }),
        Ok(StartupPlan::Relay { peers: pb, .. }),
    ) = (start_a, start_b) {
        assert(action_views(pa@).len() == pa@.len() && action_views(pb@).len() == pb@.len());
        assert forall|i: int| 0 <= i < pa@.len() implies (#[trigger] pa@[i])@ == pb@[i]@ by {
            assert(action_views(pa@)[i] == pa@[i]@ && action_views(pb@)[i] == pb@[i]@);
        }
    }
}

/// Of the static peers each one, in the order of the configuration, is registered under its name
/// at the address that its text denotes, or refused where its text denotes none; none is left out
/// and none is added.
pub proof fn every_static_peer_is_decided(
    config: FibreModuleConfig,
    port: Option<&str>,
    ip: Option<&str>,
    listen: SocketAddress,
    peers: Vec<PeerAction>,
    flag: bool,
    i: int,
    a: SocketAddress,
)
    requires
        call_ensures(
            StartupPlan::new,
            (&config, port, ip),
            Ok::<StartupPlan, ModuleError>(
                StartupPlan::Relay { listen, peers, register_peers_from_p2p: flag },
            ),
        ),
    ensures
        flag == config.register_peers_from_p2p,
        peers@.len() == config.fibre_peers@.len(),
        0 <= i < peers@.len() ==> {
            let entry = config.fibre_peers@[i];
            &&& (peers@[i] matches PeerAction::Register { peer_id, udp_addr } && peer_id@
                == entry.peer_id@ && udp_addr == a) <==> address::socket_address(
                entry.udp_addr@,
            ) == Some(a)
            &&& (peers@[i] matches PeerAction::RejectAddress { peer_id, bad_addr } && peer_id@
                == entry.peer_id@ && bad_addr@ == entry.udp_addr@)
                <==> address::socket_address(entry.udp_addr@) is None
        },
{
    decided_peers(config.fibre_peers@, peers@, i, a);
}

/// The same of the static peers by themselves.
pub proof fn every_entry_is_decided(
    entries: Vec<FibrePeerEntry>,
    actions: Vec<PeerAction>,
    i: int,
    a: SocketAddress,
)
    requires
        call_ensures(register_static_peers, (&entries,), actions),
    ensures
        actions@.len() == entries@.len(),
        0 <= i < entries@.len() ==> {
            &&& (actions@[i] matches PeerAction::Register { peer_id, udp_addr } && peer_id@
                == entries@[i].peer_id@ && udp_addr == a) <==> address::socket_address(
                entries@[i].udp_addr@,
            ) == Some(a)
            &&& (actions@[i] matches PeerAction::RejectAddress { peer_id, bad_addr } && peer_id@
                == entries@[i].peer_id@ && bad_addr@ == entries@[i].udp_addr@)
                <==> address::socket_address(entries@[i].udp_addr@) is None
        },
{
    decided_peers(entries@, actions@, i, a);
}

/// What the views of the actions say of each action.
proof fn decided_peers(
    entries: Seq<FibrePeerEntry>,
    actions: Seq<PeerAction>,
    i: int,
    a: SocketAddress,
)
    requires
        action_views(actions) == static_registrations(entries),
    ensures
        actions.len() == entries.len(),
        0 <= i < entries.len() ==> {
            &&& (actions[i] matches PeerAction::Register { peer_id, udp_addr } && peer_id@
                == entries[i].peer_id@ && udp_addr == a) <==> address::socket_address(
                entries[i].udp_addr@,
            ) == Some(a)
            &&& (actions[i] matches PeerAction::RejectAddress { peer_id, bad_addr } && peer_id@
                == entries[i].peer_id@ && bad_addr@ == entries[i].udp_addr@)
                <==> address::socket_address(entries[i].udp_addr@) is None
        },
{
    assert(action_views(actions).len() == actions.len());
    assert(static_registrations(entries).len() == entries.len());
    if 0 <= i < entries.len() {
        assert(action_views(actions)[i] == actions[i]@);
        assert(static_registrations(entries)[i] == module::registration(
            entries[i].peer_id@,
            entries[i].udp_addr@,
        ));
    }
}

/// The module that a start brings up registers a peer that advertises an address exactly when the
/// relay is enabled and the configuration says that such peers are registered.
pub proof fn started_module_registers_as_configured(
    config: FibreModuleConfig,
    port: Option<&str>,
    ip: Option<&str>,
    plan: StartupPlan,
    m: FibreModule,
    payload: module::EventPayload,
    peer: String,
    text: String,
    a: SocketAddress,
    action: PeerAction,
)
    requires
        call_ensures(StartupPlan::new, (&config, port, ip), Ok::<StartupPlan, ModuleError>(plan)),
        call_ensures(StartupPlan::module, (&plan,), m),
        payload == (module::EventPayload::CompanionUdpPeerRegistered {
            p2p_peer_addr: peer,
            udp_addr: text,
        }),
        call_ensures(FibreModule::on_companion_udp_peer_registered, (&m, &payload), action),
        address::socket_address(text@) == Some(a),
    ensures
        config.fibre.enabled && config.register_peers_from_p2p
            ==> (action matches PeerAction::Register { peer_id, udp_addr } && peer_id@ == peer@
            && udp_addr == a),
        !(config.fibre.enabled && config.register_peers_from_p2p) ==> action is Keep,
{
}

/// The module that a start brings up removes a peer that is gone exactly when it would register
/// one that comes.
pub proof fn started_module_removes_as_configured(
    config: FibreModuleConfig,
    port: Option<&str>,
    ip: Option<&str>,
    plan: StartupPlan,
    m: FibreModule,
    payload: module::EventPayload,
    peer: String,
    action: PeerAction,
)
    requires
        call_ensures(StartupPlan::new, (&config, port, ip), Ok::<StartupPlan, ModuleError>(plan)),
        call_ensures(StartupPlan::module, (&plan,), m),
        payload == (module::EventPayload::CompanionUdpPeerUnregistered { p2p_peer_addr: peer }),
        call_ensures(FibreModule::on_companion_udp_peer_unregistered, (&m, &payload), action),
    ensures
        config.fibre.enabled && config.register_peers_from_p2p ==> (
        action matches PeerAction::Unregister { peer_id } && peer_id@ == peer@),
        !(config.fibre.enabled && config.register_peers_from_p2p) ==> action is Keep,
{
}

/// The error for a UDP socket that cannot be set up ends in the reason, whatever it is.
pub proof fn reason_ends_the_message(
    short: &str,
    long: &str,
    more: Seq<char>,
    a: ModuleError,
    b: ModuleError,
)
    requires
        call_ensures(udp_init_error, (short,), a),
        call_ensures(udp_init_error, (long,), b),
        long@ == short@ + more,
    ensures
        b@ == a@ + more,
        a@ == "blvm-fibre: UDP init: "@ + short@,
{
    assert(b@ == a@ + more);
}

} // verus!
