//! Module configuration: FIBRE protocol options, the UDP bind address and static peers.

use crate::address;
use crate::address::{read_ip_address, read_socket_address, SocketAddress};
use crate::text;
use crate::text::{bool_text, decimal_text, read_u16, NumberError};
use crate::wire::FibreConfig;
use crate::written;
use vstd::hash_map::StringHashMap;
use vstd::prelude::*;
use vstd::string::*;

verus! {

/// The UDP listen address where the configuration names none.
pub fn default_udp_bind() -> (bind: String)
    ensures
        bind@ == "0.0.0.0:8334"@,
{
    "0.0.0.0:8334".to_owned()
}

/// Whether peers that the node meets are registered where the configuration says nothing.
pub fn default_register_peers_from_p2p() -> (register: bool)
    ensures
        register,
{
    true
}

/// Static FIBRE peer for outbound block sends.
#[derive(Clone, Debug)]
pub struct FibrePeerEntry {
    /// Logical peer name, used when sending.
    pub peer_id: String,
    /// UDP destination `host:port` for FEC chunks.
    pub udp_addr: String,
}

/// Configuration of the FIBRE module.
#[derive(Clone, Debug)]
pub struct FibreModuleConfig {
    /// FIBRE protocol options.
    pub fibre: FibreConfig,
    /// UDP listen address (`host:port`).
    pub udp_bind: String,
    /// Outbound FIBRE targets.
    pub fibre_peers: Vec<FibrePeerEntry>,
    /// Listen on the node's P2P TCP port plus one. When set, `udp_bind` is ignored for listening.
    pub udp_follow_node_tcp_plus_one: bool,
    /// Register FIBRE UDP targets when a P2P peer advertises the service.
    pub register_peers_from_p2p: bool,
}

/// What kind of configuration error occurred.
#[derive(Clone, Copy, Debug, PartialEq, Eq, Structural)]
pub enum ConfigErrorKind {
    /// A setting that is needed is absent.
    NotFound,
    /// A setting has no valid value.
    InvalidInput,
}

/// A configuration error.
#[derive(Clone, Debug)]
pub struct ConfigError {
    /// The kind of error.
    pub kind: ConfigErrorKind,
    /// What is wrong, for the operator.
    pub message: String,
}

/// The kind and the message of an error, or the address.
pub open spec fn outcome(r: Result<SocketAddress, ConfigError>) -> Result<
    SocketAddress,
    (ConfigErrorKind, Seq<char>),
> {
    match r {
        Ok(a) => Ok(a),
        Err(e) => Err((e.kind, e.message@)),
    }
}

/// The text that an optional setting holds.
pub open spec fn setting(s: Option<&str>) -> Option<Seq<char>> {
    match s {
        Some(s) => Some(s@),
        None => None,
    }
}

/// `a` followed by `b`.
fn concatenate(a: &str, b: &str) -> (r: String)
    ensures
        r@ == a@ + b@,
{
    let mut r: String = a.to_owned();
    r.append(b);
    r
}

/// The form in which `format!("{:?}")` writes a text: in double quotes, with escapes.
pub uninterp spec fn debug_form(s: Seq<char>) -> Seq<char>;

/// Calls std's `Debug` formatting of `str`. The result is claimed to depend on the text alone;
/// which characters are escaped is left unsaid.
#[verifier::external_body]
fn quote(s: &str) -> (r: String)
    ensures
        r@ == debug_form(s@),
{
    format!("{:?}", s)
}

/// The message for a `udp_bind` that is no socket address, given its quoted text.
pub open spec fn invalid_udp_bind_message(quoted: Seq<char>) -> Seq<char> {
    "blvm-fibre: invalid udp_bind "@ + quoted + ": invalid socket address syntax"@
}

/// The error for a `udp_bind` that is no socket address, given its quoted text.
pub fn invalid_udp_bind(quoted: &str) -> (e: ConfigError)
    ensures
        e.kind == ConfigErrorKind::InvalidInput,
        e.message@ == invalid_udp_bind_message(quoted@),
{
    let mut message: String = concatenate("blvm-fibre: invalid udp_bind ", quoted);
    message.append(": invalid socket address syntax");
    ConfigError { kind: ConfigErrorKind::InvalidInput, message }
}

/// The address to listen on when the node's P2P listen port and address are followed.
pub open spec fn followed_address(port: Option<Seq<char>>, ip: Option<Seq<char>>) -> Result<
    SocketAddress,
    (ConfigErrorKind, Seq<char>),
> {
    match port {
        None => Err(
            (
                ConfigErrorKind::NotFound,
                "blvm-fibre: udp_follow_node_tcp_plus_one requires MODULE_CONFIG_NODE_P2P_LISTEN_PORT (set automatically when the node spawns this module)"@,
            ),
        ),
        Some(port) => match text::u16_number(port) {
            Err(e) => Err(
                (
                    ConfigErrorKind::InvalidInput,
                    "blvm-fibre: invalid MODULE_CONFIG_NODE_P2P_LISTEN_PORT: "@ + e.spec_message(),
                ),
            ),
            Ok(tcp_port) => match address::ip_address(
                match ip {
                    Some(ip) => ip,
                    None => "0.0.0.0"@,
                },
            ) {
                None => Err(
                    (
                        ConfigErrorKind::InvalidInput,
                        "blvm-fibre: invalid MODULE_CONFIG_NODE_P2P_LISTEN_IP: invalid IP address syntax"@,
                    ),
                ),
                Some(ip) => Ok(
                    SocketAddress::spec_new(
                        ip,
                        if tcp_port < u16::MAX {
                            (tcp_port + 1) as u16
                        } else {
                            u16::MAX
                        },
                    ),
                ),
            },
        },
    }
}

impl FibreModuleConfig {
    /// The address that `udp_bind` denotes.
    pub open spec fn bind_address(self) -> Result<SocketAddress, (ConfigErrorKind, Seq<char>)> {
        match address::socket_address(self.udp_bind@) {
            Some(a) => Ok(a),
            None => Err(
                (
                    ConfigErrorKind::InvalidInput,
                    invalid_udp_bind_message(debug_form(self.udp_bind@)),
                ),
            ),
        }
    }

    /// The address to listen on, given what the node says of its own listen port and address.
    pub open spec fn listen_address(self, port: Option<Seq<char>>, ip: Option<Seq<char>>) -> Result<
        SocketAddress,
        (ConfigErrorKind, Seq<char>),
    > {
        if self.udp_follow_node_tcp_plus_one {
            followed_address(port, ip)
        } else {
            self.bind_address()
        }
    }

    /// The configuration with these protocol options and every other setting at its default.
    pub fn with_fibre(fibre: FibreConfig) -> (config: FibreModuleConfig)
        ensures
            config.fibre == fibre,
            config.udp_bind@ == "0.0.0.0:8334"@,
            config.fibre_peers@ == Seq::<FibrePeerEntry>::empty(),
            !config.udp_follow_node_tcp_plus_one,
            config.register_peers_from_p2p,
    {
        FibreModuleConfig {
            fibre,
            udp_bind: default_udp_bind(),
            fibre_peers: Vec::new(),
            udp_follow_node_tcp_plus_one: false,
            register_peers_from_p2p: default_register_peers_from_p2p(),
        }
    }

    /// Effective UDP listen address. `node_port` and `node_ip` are the node's P2P listen port and
    /// address, where the environment gives them.
    pub fn resolve_udp_listen_addr(&self, node_port: Option<&str>, node_ip: Option<&str>) -> (r:
        Result<SocketAddress, ConfigError>)
        ensures
            outcome(r) == self.listen_address(setting(node_port), setting(node_ip)),
    {
        if self.udp_follow_node_tcp_plus_one {
            let port_text: &str = match node_port {
                Some(port) => port,
                None => {
                    return Err(
                        ConfigError {
                            kind: ConfigErrorKind::NotFound,
                            message:
                                "blvm-fibre: udp_follow_node_tcp_plus_one requires MODULE_CONFIG_NODE_P2P_LISTEN_PORT (set automatically when the node spawns this module)".to_owned(),
                        },
                    );
                },
            };
            let tcp_port: u16 = match read_u16(port_text) {
                Ok(port) => port,
                Err(e) => {
                    return Err(
                        ConfigError {
                            kind: ConfigErrorKind::InvalidInput,
                            message: concatenate(
                                "blvm-fibre: invalid MODULE_CONFIG_NODE_P2P_LISTEN_PORT: ",
                                e.message(),
                            ),
                        },
                    );
                },
            };
            let ip_text: &str = match node_ip {
                Some(ip) => ip,
                None => "0.0.0.0",
            };
            match read_ip_address(ip_text) {
                Some(ip) => {
                    let udp_port: u16 = tcp_port.saturating_add(1);
                    Ok(SocketAddress::new(ip, udp_port))
                },
                None => Err(
                    ConfigError {
                        kind: ConfigErrorKind::InvalidInput,
                        message:
                            "blvm-fibre: invalid MODULE_CONFIG_NODE_P2P_LISTEN_IP: invalid IP address syntax".to_owned(),
                    },
                ),
            }
        } else {
            self.udp_socket_addr()
        }
    }

    /// The UDP bind address when `udp_bind` alone decides.
    pub fn udp_socket_addr(&self) -> (r: Result<SocketAddress, ConfigError>)
        ensures
            outcome(r) == self.bind_address(),
    {
        match read_socket_address(self.udp_bind.as_str()) {
            Some(a) => Ok(a),
            None => Err(invalid_udp_bind(quote(self.udp_bind.as_str()).as_str())),
        }
    }
}

/// The keys and values that pairs of strings hold.
pub open spec fn entry_texts(entries: Seq<(String, String)>) -> Seq<(Seq<char>, Seq<char>)> {
    entries.map_values(|e: (String, String)| (e.0@, e.1@))
}

/// The values of a string map, by their text.
pub open spec fn map_texts(m: Map<Seq<char>, String>) -> Map<Seq<char>, Seq<char>> {
    m.map_values(|v: String| v@)
}

/// The map that results when the entries are inserted in order.
pub open spec fn collected(entries: Seq<(Seq<char>, Seq<char>)>) -> Map<Seq<char>, Seq<char>>
    decreases entries.len(),
{
    if entries.len() == 0 {
        Map::empty()
    } else {
        collected(entries.drop_last()).insert(entries.last().0, entries.last().1)
    }
}

/// Inserts the entries into a map in order.
fn collect(entries: &Vec<(String, String)>) -> (m: StringHashMap<String>)
    ensures
        map_texts(m@) == collected(entry_texts(entries@)),
{
    let ghost texts = entry_texts(entries@);
    let mut m: StringHashMap<String> = StringHashMap::new();
    let mut i: usize = 0;
    assert(map_texts(m@) == collected(texts.take(0)));
    while i < entries.len()
        invariant
            i <= entries.len(),
            texts == entry_texts(entries@),
            map_texts(m@) == collected(texts.take(i as int)),
        decreases entries.len() - i,
    {
        let ghost before = m@;
        let key: String = entries[i].0.clone();
        let value: String = entries[i].1.clone();
        proof {
            assert(texts.take(i + 1).drop_last() == texts.take(i as int));
            assert(texts.take(i + 1).last() == (key@, value@));
        }
        m.insert(key, value);
        assert(map_texts(m@) == map_texts(before).insert(key@, value@));
        i = i + 1;
    }
    assert(texts.take(texts.len() as int) == texts);
    m
}

impl FibreModuleConfig {
    /// The settings as keys and values, for module context and diagnostics.
    pub open spec fn context(self) -> Map<Seq<char>, Seq<char>> {
        map![
            "blvm-fibre.udp_bind"@ => self.udp_bind@,
            "blvm-fibre.enabled"@ => text::bool_words(self.fibre.enabled),
            "blvm-fibre.fec_parity_ratio"@ => self.fibre.fec_parity_ratio@,
            "blvm-fibre.chunk_timeout_secs"@ => text::decimal(self.fibre.chunk_timeout_secs as nat),
            "blvm-fibre.fibre_peers_count"@ => text::decimal(self.fibre_peers@.len()),
            "blvm-fibre.udp_follow_node_tcp_plus_one"@ => text::bool_words(
                self.udp_follow_node_tcp_plus_one,
            ),
            "blvm-fibre.register_peers_from_p2p"@ => text::bool_words(self.register_peers_from_p2p),
        ]
    }

    /// The keys and values of the context map, in the order in which they are listed.
    pub open spec fn context_list(self) -> Seq<(Seq<char>, Seq<char>)> {
        seq![
            ("blvm-fibre.udp_bind"@, self.udp_bind@),
            ("blvm-fibre.enabled"@, text::bool_words(self.fibre.enabled)),
            ("blvm-fibre.fec_parity_ratio"@, self.fibre.fec_parity_ratio@),
            (
                "blvm-fibre.chunk_timeout_secs"@,
                text::decimal(self.fibre.chunk_timeout_secs as nat),
            ),
            ("blvm-fibre.fibre_peers_count"@, text::decimal(self.fibre_peers@.len())),
            (
                "blvm-fibre.udp_follow_node_tcp_plus_one"@,
                text::bool_words(self.udp_follow_node_tcp_plus_one),
            ),
            (
                "blvm-fibre.register_peers_from_p2p"@,
                text::bool_words(self.register_peers_from_p2p),
            ),
        ]
    }

    /// The entries of the context map, each key once.
    pub fn context_entries(&self) -> (entries: Vec<(String, String)>)
        ensures
            entry_texts(entries@) == self.context_list(),
            collected(entry_texts(entries@)) == self.context(),
    {
        let mut entries: Vec<(String, String)> = Vec::new();
        entries.push(("blvm-fibre.udp_bind".to_owned(), self.udp_bind.clone()));
        entries.push(("blvm-fibre.enabled".to_owned(), bool_text(self.fibre.enabled)));
        entries.push(
            ("blvm-fibre.fec_parity_ratio".to_owned(), self.fibre.fec_parity_ratio.clone()),
        );
        entries.push(
            (
                "blvm-fibre.chunk_timeout_secs".to_owned(),
                decimal_text(self.fibre.chunk_timeout_secs),
            ),
        );
        entries.push(
            (
                "blvm-fibre.fibre_peers_count".to_owned(),
                decimal_text(self.fibre_peers.len() as u64),
            ),
        );
        entries.push(
            (
                "blvm-fibre.udp_follow_node_tcp_plus_one".to_owned(),
                bool_text(self.udp_follow_node_tcp_plus_one),
            ),
        );
        entries.push(
            (
                "blvm-fibre.register_peers_from_p2p".to_owned(),
                bool_text(self.register_peers_from_p2p),
            ),
        );
        proof {
            reveal_with_fuel(collected, 8);
            let texts = entry_texts(entries@);
            assert(texts == self.context_list());
            assert(collected(texts) == self.context());
        }
        entries
    }

    /// Key-value map for module context and diagnostics.
    pub fn to_context_map(&self) -> (m: StringHashMap<String>)
        ensures
            map_texts(m@) == self.context(),
    {
        let entries: Vec<(String, String)> = self.context_entries();
        collect(&entries)
    }
}

/// The context map has seven entries, whatever the configuration holds.
pub proof fn context_has_seven_entries(config: FibreModuleConfig)
    ensures
        config.context().dom().finite(),
        config.context().len() == 7,
{
    context_keys_differ();
    let keys = Set::empty().insert("blvm-fibre.udp_bind"@).insert("blvm-fibre.enabled"@).insert(
        "blvm-fibre.fec_parity_ratio"@,
    ).insert("blvm-fibre.chunk_timeout_secs"@).insert("blvm-fibre.fibre_peers_count"@).insert(
        "blvm-fibre.udp_follow_node_tcp_plus_one"@,
    ).insert("blvm-fibre.register_peers_from_p2p"@);
    assert(config.context().dom() == keys);
}

/// A `udp_bind` that is the text of a socket address, of either family, denotes that address.
pub proof fn written_bind_is_read_back(config: FibreModuleConfig, a: SocketAddress)
    requires
        config.udp_bind@ == written::socket_text(a),
    ensures
        config.bind_address() == Ok::<_, (ConfigErrorKind, Seq<char>)>(a),
{
    written::socket_address_is_read_back(a);
}

/// When the node is followed, the UDP port is the node's TCP port plus one and the IP address is
/// the node's, which is unspecified (`0.0.0.0`) unless the node names it.
pub proof fn follows_node_port_plus_one(
    config: FibreModuleConfig,
    port: Seq<char>,
    ip: Option<Seq<char>>,
)
    requires
        config.udp_follow_node_tcp_plus_one,
        text::u16_number(port) is Ok,
        text::u16_number(port)->Ok_0 < u16::MAX,
        ip matches Some(ip) ==> address::ip_address(ip) is Some,
    ensures
        config.listen_address(Some(port), ip) == Ok::<_, (ConfigErrorKind, Seq<char>)>(
            SocketAddress::spec_new(
                match ip {
                    Some(ip) => address::ip_address(ip)->0,
                    None => address::IpAddress::V4(0),
                },
                (text::u16_number(port)->Ok_0 + 1) as u16,
            ),
        ),
{
    any_address_is_zero();
}

/// When the node is followed, `udp_bind` has no influence on where the module listens.
pub proof fn bind_is_ignored_when_following(
    a: FibreModuleConfig,
    b: FibreModuleConfig,
    port: Option<Seq<char>>,
    ip: Option<Seq<char>>,
)
    requires
        a.udp_follow_node_tcp_plus_one,
        b.udp_follow_node_tcp_plus_one,
    ensures
        a.listen_address(port, ip) == b.listen_address(port, ip),
{
}

/// When the node is not followed, what it says of its own address has no influence on where the
/// module listens.
pub proof fn node_is_ignored_when_not_following(
    config: FibreModuleConfig,
    port: Option<Seq<char>>,
    ip: Option<Seq<char>>,
)
    requires
        !config.udp_follow_node_tcp_plus_one,
    ensures
        config.listen_address(port, ip) == config.bind_address(),
{
}

/// Following a node that listens on `ip_text` and `tcp_port` is the same as binding to that IP
/// address with the next port.
pub proof fn following_is_binding_to_next_port(
    following: FibreModuleConfig,
    bound: FibreModuleConfig,
    ip_text: Seq<char>,
    tcp_port: u16,
)
    requires
        following.udp_follow_node_tcp_plus_one,
        tcp_port < u16::MAX,
        address::ip_address(ip_text) is Some,
        bound.udp_bind@ == address::with_port(ip_text, (tcp_port + 1) as u16),
    ensures
        following.listen_address(Some(text::decimal(tcp_port as nat)), Some(ip_text))
            == bound.bind_address(),
{
    text::u16_is_read_back(tcp_port);
    address::address_with_port(ip_text, (tcp_port + 1) as u16);
}

/// `udp_socket_addr` gives the address that `udp_bind` denotes, whatever else the configuration
/// says, and refuses every other text by its quoted form.
pub proof fn bind_decides(
    config: FibreModuleConfig,
    r: Result<SocketAddress, ConfigError>,
    a: SocketAddress,
)
    requires
        call_ensures(FibreModuleConfig::udp_socket_addr, (&config,), r),
    ensures
        r == Ok::<SocketAddress, ConfigError>(a) <==> address::socket_address(config.udp_bind@)
            == Some(a),
        r matches Err(e) ==> {
            &&& e.kind == ConfigErrorKind::InvalidInput
            &&& e.message@ == "blvm-fibre: invalid udp_bind "@ + debug_form(config.udp_bind@)
                + ": invalid socket address syntax"@
        },
        config.udp_bind@ == written::socket_text(a) ==> r == Ok::<SocketAddress, ConfigError>(a),
{
    written::socket_address_is_read_back(a);
}

/// The message for a `udp_bind` that is no socket address holds its quoted text.
pub proof fn refused_bind_is_quoted(quoted: &str, e: ConfigError)
    requires
        call_ensures(invalid_udp_bind, (quoted,), e),
    ensures
        e.kind == ConfigErrorKind::InvalidInput,
        e.message@ == "blvm-fibre: invalid udp_bind "@ + quoted@
            + ": invalid socket address syntax"@,
{
}

/// When the node is followed and its port can be read, with or without a plus sign, the module
/// listens at the next port and the node's IP address, or at any IPv4 address where the node names
/// none; the last port has no next and stays. Only an unreadable IP address is refused.
pub proof fn followed_node_decides(
    config: FibreModuleConfig,
    port_text: &str,
    port: u16,
    ip_text: Option<&str>,
    r: Result<SocketAddress, ConfigError>,
)
    requires
        call_ensures(
            FibreModuleConfig::resolve_udp_listen_addr,
            (&config, Some(port_text), ip_text),
            r,
        ),
        config.udp_follow_node_tcp_plus_one,
        text::after_plus(port_text@).len() > 0,
        text::digits_value(text::after_plus(port_text@), 10) == Some(port as int),
    ensures
        ip_text is None ==> r == Ok::<SocketAddress, ConfigError>(
            SocketAddress::V4 { ipv4: 0, port: (if port < 65535 { port + 1 } else { 65535 }) as u16 },
        ),
        ip_text matches Some(ip) ==> match address::ip_address(ip@) {
            Some(address::IpAddress::V4(ipv4)) => r == Ok::<SocketAddress, ConfigError>(
                SocketAddress::V4 { ipv4, port: (if port < 65535 { port + 1 } else { 65535 }) as u16 },
            ),
            Some(address::IpAddress::V6(ipv6)) => r == Ok::<SocketAddress, ConfigError>(
                SocketAddress::V6 { ipv6, port: (if port < 65535 { port + 1 } else { 65535 }) as u16, scope_id: 0 },
            ),
            None => r matches Err(e) && e.kind == ConfigErrorKind::InvalidInput && e.message@
                == "blvm-fibre: invalid MODULE_CONFIG_NODE_P2P_LISTEN_IP: invalid IP address syntax"@,
        },
{
    text::u16_digits_denote(text::after_plus(port_text@));
    any_address_is_zero();
}

/// `0.0.0.0` denotes the IPv4 address zero.
pub proof fn any_address_is_zero()
    ensures
        address::ip_address("0.0.0.0"@) == Some(address::IpAddress::V4(0)),
{
    reveal_strlit("0.0.0.0");
    address::ipv4_has_one_text("0.0.0.0"@, 0);
    assert(text::decimal(0) == seq!['0']);
    reveal_with_fuel(text::join, 4);
    assert("0.0.0.0"@ == address::ipv4_text(0));
}

/// When the node is followed but names no port, or one that cannot be read, the module does not
/// listen: the error says so, with the reason for which the port cannot be read.
pub proof fn unreadable_port_is_refused(
    config: FibreModuleConfig,
    port_text: Option<&str>,
    reason: NumberError,
    sentence: &'static str,
    ip_text: Option<&str>,
    r: Result<SocketAddress, ConfigError>,
)
    requires
        call_ensures(
            FibreModuleConfig::resolve_udp_listen_addr,
            (&config, port_text, ip_text),
            r,
        ),
        config.udp_follow_node_tcp_plus_one,
        call_ensures(NumberError::message, (reason,), sentence),
    ensures
        port_text is None ==> (r matches Err(e) && e.kind == ConfigErrorKind::NotFound && e.message@
            == "blvm-fibre: udp_follow_node_tcp_plus_one requires MODULE_CONFIG_NODE_P2P_LISTEN_PORT (set automatically when the node spawns this module)"@),
        port_text matches Some(port) ==> call_ensures(
            read_u16,
            (port,),
            Err::<u16, NumberError>(reason),
        ) ==> (r matches Err(e) && e.kind == ConfigErrorKind::InvalidInput && e.message@
            == "blvm-fibre: invalid MODULE_CONFIG_NODE_P2P_LISTEN_PORT: "@ + sentence@),
{
}

/// When the node is not followed, `udp_bind` alone decides where the module listens; when it is
/// followed, the node alone does.
pub proof fn one_setting_decides_who_names_the_address(
    a: FibreModuleConfig,
    b: FibreModuleConfig,
    port: Option<&str>,
    ip: Option<&str>,
    resolved_a: Result<SocketAddress, ConfigError>,
    resolved_b: Result<SocketAddress, ConfigError>,
    bound_a: Result<SocketAddress, ConfigError>,
)
    requires
        call_ensures(FibreModuleConfig::resolve_udp_listen_addr, (&a, port, ip), resolved_a),
        call_ensures(FibreModuleConfig::resolve_udp_listen_addr, (&b, port, ip), resolved_b),
        call_ensures(FibreModuleConfig::udp_socket_addr, (&a,), bound_a),
    ensures
        !a.udp_follow_node_tcp_plus_one ==> match (resolved_a, bound_a) {
            (Ok(a), Ok(b)) => a == b,
            (Err(a), Err(b)) => a.kind == b.kind && a.message@ == b.message@,
            _ => false,
        },
        a.udp_follow_node_tcp_plus_one && b.udp_follow_node_tcp_plus_one
            ==> match (resolved_a, resolved_b) {
            (Ok(a), Ok(b)) => a == b,
            (Err(a), Err(b)) => a.kind == b.kind && a.message@ == b.message@,
            _ => false,
        },
{
}

/// The default configuration has the given protocol options, binds to port 8334 of every IPv4
/// address, knows no peers and registers those that the node meets.
pub proof fn defaults_are_in_place(
    fibre: FibreConfig,
    config: FibreModuleConfig,
    r: Result<SocketAddress, ConfigError>,
    port: Option<&str>,
    ip: Option<&str>,
)
    requires
        call_ensures(FibreModuleConfig::with_fibre, (fibre,), config),
        call_ensures(FibreModuleConfig::resolve_udp_listen_addr, (&config, port, ip), r),
    ensures
        config.fibre == fibre,
        r == Ok::<SocketAddress, ConfigError>(SocketAddress::V4 { ipv4: 0, port: 8334 }),
        config.fibre_peers@.len() == 0,
        config.register_peers_from_p2p,
{
    let a = SocketAddress::V4 { ipv4: 0, port: 8334 };
    reveal_strlit("0.0.0.0:8334");
    written::socket_address_is_read_back(a);
    assert(text::decimal(0) == seq!['0']);
    assert(text::decimal(8334) == seq!['8', '3', '3', '4']) by {
        reveal_with_fuel(text::decimal, 5);
    }
    reveal_with_fuel(text::join, 4);
    assert("0.0.0.0:8334"@ == written::socket_text(a));
}

/// The keys of the context map are all of different lengths.
proof fn context_keys_differ()
    ensures
        "blvm-fibre.udp_bind"@.len() == 19,
        "blvm-fibre.enabled"@.len() == 18,
        "blvm-fibre.fec_parity_ratio"@.len() == 27,
        "blvm-fibre.chunk_timeout_secs"@.len() == 29,
        "blvm-fibre.fibre_peers_count"@.len() == 28,
        "blvm-fibre.udp_follow_node_tcp_plus_one"@.len() == 39,
        "blvm-fibre.register_peers_from_p2p"@.len() == 34,
{
    reveal_strlit("blvm-fibre.udp_bind");
    reveal_strlit("blvm-fibre.enabled");
    reveal_strlit("blvm-fibre.fec_parity_ratio");
    reveal_strlit("blvm-fibre.chunk_timeout_secs");
    reveal_strlit("blvm-fibre.fibre_peers_count");
    reveal_strlit("blvm-fibre.udp_follow_node_tcp_plus_one");
    reveal_strlit("blvm-fibre.register_peers_from_p2p");
}

/// Each value of the context map is the setting that its key names: texts as they are, numbers as
/// digits that denote them, truth values as `true` or `false`.
#[verifier::spinoff_prover]
pub proof fn context_values_are_settings(config: FibreModuleConfig, m: StringHashMap<String>)
    requires
        call_ensures(FibreModuleConfig::to_context_map, (&config,), m),
    ensures
        m@.dom().len() == 7,
        m@.contains_key("blvm-fibre.udp_bind"@),
        m@["blvm-fibre.udp_bind"@]@ == config.udp_bind@,
        m@.contains_key("blvm-fibre.enabled"@),
        m@["blvm-fibre.enabled"@]@ == (if config.fibre.enabled {
            seq!['t', 'r', 'u', 'e']
        } else {
            seq!['f', 'a', 'l', 's', 'e']
        }),
        m@.contains_key("blvm-fibre.fec_parity_ratio"@),
        m@["blvm-fibre.fec_parity_ratio"@]@ == config.fibre.fec_parity_ratio@,
        m@.contains_key("blvm-fibre.chunk_timeout_secs"@),
        text::digits_value(m@["blvm-fibre.chunk_timeout_secs"@]@, 10) == Some(
            config.fibre.chunk_timeout_secs as int,
        ),
        m@.contains_key("blvm-fibre.fibre_peers_count"@),
        text::digits_value(m@["blvm-fibre.fibre_peers_count"@]@, 10) == Some(
            config.fibre_peers@.len() as int,
        ),
        m@.contains_key("blvm-fibre.udp_follow_node_tcp_plus_one"@),
        m@["blvm-fibre.udp_follow_node_tcp_plus_one"@]@ == (if config.udp_follow_node_tcp_plus_one {
            seq!['t', 'r', 'u', 'e']
        } else {
            seq!['f', 'a', 'l', 's', 'e']
        }),
        m@.contains_key("blvm-fibre.register_peers_from_p2p"@),
        m@["blvm-fibre.register_peers_from_p2p"@]@ == (if config.register_peers_from_p2p {
            seq!['t', 'r', 'u', 'e']
        } else {
            seq!['f', 'a', 'l', 's', 'e']
        }),
{
    let texts = map_texts(m@);
    context_keys_differ();
    reveal_strlit("true");
    reveal_strlit("false");
    assert("true"@ == seq!['t', 'r', 'u', 'e']);
    assert("false"@ == seq!['f', 'a', 'l', 's', 'e']);
    text::decimal_is_read_back(config.fibre.chunk_timeout_secs as nat);
    text::decimal_is_read_back(config.fibre_peers@.len());
    context_has_seven_entries(config);
    assert(texts.dom() == m@.dom());
    assert(texts["blvm-fibre.udp_bind"@] == m@["blvm-fibre.udp_bind"@]@);
    assert(texts["blvm-fibre.enabled"@] == m@["blvm-fibre.enabled"@]@);
    assert(texts["blvm-fibre.fec_parity_ratio"@] == m@["blvm-fibre.fec_parity_ratio"@]@);
    assert(texts["blvm-fibre.chunk_timeout_secs"@] == m@["blvm-fibre.chunk_timeout_secs"@]@);
    assert(texts["blvm-fibre.fibre_peers_count"@] == m@["blvm-fibre.fibre_peers_count"@]@);
    assert(texts["blvm-fibre.udp_follow_node_tcp_plus_one"@] == m@["blvm-fibre.udp_follow_node_tcp_plus_one"@]@);
    assert(texts["blvm-fibre.register_peers_from_p2p"@] == m@["blvm-fibre.register_peers_from_p2p"@]@);
}

/// The value under each key determines the setting that the key names: where two context maps
/// agree at a key, the configurations agree in the setting.
#[verifier::spinoff_prover]
pub proof fn context_values_determine_settings(
    a: FibreModuleConfig,
    b: FibreModuleConfig,
    m: StringHashMap<String>,
    n: StringHashMap<String>,
)
    requires
        call_ensures(FibreModuleConfig::to_context_map, (&a,), m),
        call_ensures(FibreModuleConfig::to_context_map, (&b,), n),
    ensures
        m@["blvm-fibre.udp_bind"@]@ == n@["blvm-fibre.udp_bind"@]@ <==> a.udp_bind@ == b.udp_bind@,
        m@["blvm-fibre.enabled"@]@ == n@["blvm-fibre.enabled"@]@ <==> a.fibre.enabled
            == b.fibre.enabled,
        m@["blvm-fibre.fec_parity_ratio"@]@ == n@["blvm-fibre.fec_parity_ratio"@]@
            <==> a.fibre.fec_parity_ratio@ == b.fibre.fec_parity_ratio@,
        m@["blvm-fibre.chunk_timeout_secs"@]@ == n@["blvm-fibre.chunk_timeout_secs"@]@
            <==> a.fibre.chunk_timeout_secs == b.fibre.chunk_timeout_secs,
        m@["blvm-fibre.fibre_peers_count"@]@ == n@["blvm-fibre.fibre_peers_count"@]@
            <==> a.fibre_peers@.len() == b.fibre_peers@.len(),
        m@["blvm-fibre.udp_follow_node_tcp_plus_one"@]@
            == n@["blvm-fibre.udp_follow_node_tcp_plus_one"@]@ <==> a.udp_follow_node_tcp_plus_one
            == b.udp_follow_node_tcp_plus_one,
        m@["blvm-fibre.register_peers_from_p2p"@]@ == n@["blvm-fibre.register_peers_from_p2p"@]@
            <==> a.register_peers_from_p2p == b.register_peers_from_p2p,
{
    context_values_are_settings(a, m);
    context_values_are_settings(b, n);
    context_keys_differ();
    let t = seq!['t', 'r', 'u', 'e'];
    let f = seq!['f', 'a', 'l', 's', 'e'];
    assert(t.len() == 4 && f.len() == 5);
    assert(map_texts(m@)["blvm-fibre.chunk_timeout_secs"@]
        == m@["blvm-fibre.chunk_timeout_secs"@]@);
    assert(map_texts(n@)["blvm-fibre.chunk_timeout_secs"@]
        == n@["blvm-fibre.chunk_timeout_secs"@]@);
    assert(map_texts(m@)["blvm-fibre.fibre_peers_count"@] == m@["blvm-fibre.fibre_peers_count"@]@);
    assert(map_texts(n@)["blvm-fibre.fibre_peers_count"@] == n@["blvm-fibre.fibre_peers_count"@]@);
}

/// The entries are the context map: every key of the map once, with its value.
#[verifier::spinoff_prover]
pub proof fn entries_are_the_map(
    config: FibreModuleConfig,
    entries: Vec<(String, String)>,
    m: StringHashMap<String>,
)
    requires
        call_ensures(FibreModuleConfig::context_entries, (&config,), entries),
        call_ensures(FibreModuleConfig::to_context_map, (&config,), m),
    ensures
        entries@.len() == m@.dom().len(),
        forall|i: int|
            0 <= i < entries@.len() ==> m@.contains_key((#[trigger] entries@[i]).0@)
                && m@[entries@[i].0@]@ == entries@[i].1@,
        forall|i: int, j: int|
            0 <= i < j < entries@.len() ==> (#[trigger] entries@[i]).0@ != (
            #[trigger] entries@[j]).0@,
{
    let texts = entry_texts(entries@);
    let list = config.context_list();
    let map = map_texts(m@);
    context_keys_differ();
    context_values_are_settings(config, m);
    assert(texts.len() == 7);
    assert forall|i: int| 0 <= i < entries@.len() implies m@.contains_key(
        (#[trigger] entries@[i]).0@,
    ) && m@[entries@[i].0@]@ == entries@[i].1@ by {
        assert(texts[i] == (entries@[i].0@, entries@[i].1@));
        assert(list[i] == texts[i]);
        assert(map.contains_key(list[i].0) && map[list[i].0] == list[i].1);
    }
    assert forall|i: int, j: int| 0 <= i < j < entries@.len() implies (#[trigger] entries@[i]).0@
        != (#[trigger] entries@[j]).0@ by {
        assert(texts[i].0 == entries@[i].0@ && texts[j].0 == entries@[j].0@);
        assert(list[i].0.len() != list[j].0.len());
    }
}

} // verus!
