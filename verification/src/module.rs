//! What the module does when the node reports an event.

use crate::address;
use crate::address::{read_socket_address, SocketAddress};
use crate::send;
use crate::send::{BlockSend, BlockSource, SendAction};
use crate::written;
use vstd::prelude::*;

verus! {

/// An event that the node reports, as far as the module reads it.
#[derive(Debug)]
pub enum EventPayload {
    /// The node accepted a new block.
    NewBlock { block_hash: [u8; 32] },
    /// The node mined a block.
    BlockMined { block_hash: [u8; 32] },
    /// A P2P peer advertised a companion UDP endpoint.
    CompanionUdpPeerRegistered { p2p_peer_addr: String, udp_addr: String },
    /// A P2P peer with a companion UDP endpoint is gone.
    CompanionUdpPeerUnregistered { p2p_peer_addr: String },
    /// Any other event.
    Other,
}

/// Why an event could not be handled.
#[derive(Debug)]
pub enum ModuleError {
    /// What went wrong, for the operator.
    Other(String),
}

impl View for ModuleError {
    type V = Seq<char>;

    open spec fn view(&self) -> Seq<char> {
        match *self {
            ModuleError::Other(message) => message@,
        }
    }
}

/// What an event changes in the relay's peers.
#[derive(Debug)]
pub enum PeerAction {
    /// Nothing.
    Keep,
    /// The peer is to be registered with this UDP address.
    Register { peer_id: String, udp_addr: SocketAddress },
    /// The peer is not to be registered, for its UDP address cannot be read.
    RejectAddress { peer_id: String, bad_addr: String },
    /// The peer is to be removed, if it is registered.
    Unregister { peer_id: String },
}

/// What an event changes in the relay's peers, over the texts.
pub enum PeerActionView {
    /// Nothing.
    Keep,
    /// The peer is to be registered with this UDP address.
    Register { peer_id: Seq<char>, udp_addr: SocketAddress },
    /// The peer is not to be registered, for its UDP address cannot be read.
    RejectAddress { peer_id: Seq<char>, bad_addr: Seq<char> },
    /// The peer is to be removed, if it is registered.
    Unregister { peer_id: Seq<char> },
}

impl View for PeerAction {
    type V = PeerActionView;

    open spec fn view(&self) -> PeerActionView {
        match *self {
            PeerAction::Keep => PeerActionView::Keep,
            PeerAction::Register { peer_id, udp_addr } => PeerActionView::Register {
                peer_id: peer_id@,
                udp_addr,
            },
            PeerAction::RejectAddress { peer_id, bad_addr } => PeerActionView::RejectAddress {
                peer_id: peer_id@,
                bad_addr: bad_addr@,
            },
            PeerAction::Unregister { peer_id } => PeerActionView::Unregister { peer_id: peer_id@ },
        }
    }
}

/// A peer with this name and UDP address text is registered exactly when the address can be read.
pub open spec fn registration(peer_id: Seq<char>, udp_addr: Seq<char>) -> PeerActionView {
    match address::socket_address(udp_addr) {
        Some(a) => PeerActionView::Register { peer_id, udp_addr: a },
        None => PeerActionView::RejectAddress { peer_id, bad_addr: udp_addr },
    }
}

/// Reads a peer's UDP address and decides whether it is registered.
pub fn register_peer(peer_id: &String, udp_addr: &String) -> (action: PeerAction)
    ensures
        action@ == registration(peer_id@, udp_addr@),
{
    match read_socket_address(udp_addr.as_str()) {
        Some(a) => PeerAction::Register { peer_id: peer_id.clone(), udp_addr: a },
        None => PeerAction::RejectAddress { peer_id: peer_id.clone(), bad_addr: udp_addr.clone() },
    }
}

/// The FIBRE module.
#[derive(Clone, Copy, Debug)]
pub struct FibreModule {
    register_peers_from_p2p: bool,
}

impl FibreModule {
    /// Whether peers that the node meets are registered.
    pub closed spec fn registers_peers(self) -> bool {
        self.register_peers_from_p2p
    }

    /// What an event changes in the relay's peers.
    pub open spec fn peer_action(self, payload: EventPayload) -> PeerActionView {
        match payload {
            EventPayload::CompanionUdpPeerRegistered { p2p_peer_addr, udp_addr } => if self.registers_peers() {
                registration(p2p_peer_addr@, udp_addr@)
            } else {
                PeerActionView::Keep
            },
            EventPayload::CompanionUdpPeerUnregistered { p2p_peer_addr } => if self.registers_peers() {
                PeerActionView::Unregister { peer_id: p2p_peer_addr@ }
            } else {
                PeerActionView::Keep
            },
            _ => PeerActionView::Keep,
        }
    }

    /// A module that registers peers that the node meets, or does not.
    pub fn new(register_peers_from_p2p: bool) -> (module: FibreModule)
        ensures
            module.registers_peers() == register_peers_from_p2p,
    {
        FibreModule { register_peers_from_p2p }
    }

    /// The send that a block event begins, given whether the node's API is at hand.
    fn on_block(block_hash: Option<[u8; 32]>, source: BlockSource, node_api: bool) -> (r: Result<
        Option<BlockSend>,
        ModuleError,
    >)
        ensures
            is_block_send(r, block_hash, source, node_api),
    {
        if !node_api {
            return Err(ModuleError::Other("blvm-fibre: node_api required".to_owned()));
        }
        match block_hash {
            Some(hash) => Ok(Some(BlockSend::new(hash, source))),
            None => Ok(None),
        }
    }

    /// A new block is sent to every FIBRE peer. `node_api` says whether the node's API is at hand.
    pub fn on_new_block(&self, payload: &EventPayload, node_api: bool) -> (r: Result<
        Option<BlockSend>,
        ModuleError,
    >)
        ensures
            is_block_send(r, new_block_hash(*payload), BlockSource::NewBlock, node_api),
    {
        let hash: Option<[u8; 32]> = match payload {
            EventPayload::NewBlock { block_hash } => Some(*block_hash),
            _ => None,
        };
        FibreModule::on_block(hash, BlockSource::NewBlock, node_api)
    }

    /// A block that the node mined is sent as a new block is.
    pub fn on_block_mined(&self, payload: &EventPayload, node_api: bool) -> (r: Result<
        Option<BlockSend>,
        ModuleError,
    >)
        ensures
            is_block_send(r, mined_block_hash(*payload), BlockSource::BlockMined, node_api),
    {
        let hash: Option<[u8; 32]> = match payload {
            EventPayload::BlockMined { block_hash } => Some(*block_hash),
            _ => None,
        };
        FibreModule::on_block(hash, BlockSource::BlockMined, node_api)
    }

    /// A P2P peer that advertises a companion UDP endpoint becomes a FIBRE peer.
    pub fn on_companion_udp_peer_registered(&self, payload: &EventPayload) -> (action: PeerAction)
        ensures
            payload is CompanionUdpPeerRegistered ==> action@ == self.peer_action(*payload),
            !(payload is CompanionUdpPeerRegistered) ==> action@ == PeerActionView::Keep,
    {
        if !self.register_peers_from_p2p {
            return PeerAction::Keep;
        }
        match payload {
            EventPayload::CompanionUdpPeerRegistered { p2p_peer_addr, udp_addr } => register_peer(
                p2p_peer_addr,
                udp_addr,
            ),
            _ => PeerAction::Keep,
        }
    }

    /// A P2P peer that is gone is no longer a FIBRE peer.
    pub fn on_companion_udp_peer_unregistered(&self, payload: &EventPayload) -> (action: PeerAction)
        ensures
            payload is CompanionUdpPeerUnregistered ==> action@ == self.peer_action(*payload),
            !(payload is CompanionUdpPeerUnregistered) ==> action@ == PeerActionView::Keep,
    {
        if !self.register_peers_from_p2p {
            return PeerAction::Keep;
        }
        match payload {
            EventPayload::CompanionUdpPeerUnregistered { p2p_peer_addr } => PeerAction::Unregister {
                peer_id: p2p_peer_addr.clone(),
            },
            _ => PeerAction::Keep,
        }
    }

    /// What the module is and how it is configured.
    pub fn help(&self) -> (text: String)
        ensures
            text@
                == "blvm-fibre — UDP/FEC block relay for blvm-node.\nConfigure module `config.toml` / `[modules.blvm-fibre]` (FibreConfig + udp_bind or udp_follow_node_tcp_plus_one).\nNode injects MODULE_CONFIG_NODE_P2P_LISTEN_* on spawn when using udp_follow_node_tcp_plus_one (UDP = TCP+1 like in-process FIBRE).\nCapabilities: read_blockchain, subscribe_events, queue_inbound_block.\nOptional `[[fibre_peers]]`; `register_peers_from_p2p` subscribes to CompanionUdpPeer* for NODE_FIBRE peers."@,
    {
        "blvm-fibre — UDP/FEC block relay for blvm-node.\nConfigure module `config.toml` / `[modules.blvm-fibre]` (FibreConfig + udp_bind or udp_follow_node_tcp_plus_one).\nNode injects MODULE_CONFIG_NODE_P2P_LISTEN_* on spawn when using udp_follow_node_tcp_plus_one (UDP = TCP+1 like in-process FIBRE).\nCapabilities: read_blockchain, subscribe_events, queue_inbound_block.\nOptional `[[fibre_peers]]`; `register_peers_from_p2p` subscribes to CompanionUdpPeer* for NODE_FIBRE peers.".to_owned()
    }
}

/// The hash that a new-block event carries.
pub open spec fn new_block_hash(payload: EventPayload) -> Option<[u8; 32]> {
    match payload {
        EventPayload::NewBlock { block_hash } => Some(block_hash),
        _ => None,
    }
}

/// The hash that a mined-block event carries.
pub open spec fn mined_block_hash(payload: EventPayload) -> Option<[u8; 32]> {
    match payload {
        EventPayload::BlockMined { block_hash } => Some(block_hash),
        _ => None,
    }
}

/// Without the node's API an event fails; with it, an event that carries a hash begins a send of
/// that block, and any other event begins nothing.
pub open spec fn is_block_send(
    r: Result<Option<BlockSend>, ModuleError>,
    block_hash: Option<[u8; 32]>,
    source: BlockSource,
    node_api: bool,
) -> bool {
    match r {
        Err(e) => !node_api && e@ == "blvm-fibre: node_api required"@,
        Ok(None) => node_api && block_hash is None,
        Ok(Some(begun)) => {
            &&& node_api
            &&& block_hash == Some(begun.spec_block_hash())
            &&& begun.spec_source() == source
            &&& begun.stage() == send::StageView::Fetch
        },
    }
}

/// A module that does not register peers leaves the relay's peers alone, whatever happens.
pub proof fn registration_off_keeps_peers(module: FibreModule, payload: EventPayload)
    requires
        !module.registers_peers(),
    ensures
        module.peer_action(payload) == PeerActionView::Keep,
{
}

/// A peer that was registered when it came is removed under the same name when it goes.
pub proof fn gone_peer_is_removed_by_name(
    module: FibreModule,
    came: EventPayload,
    gone: EventPayload,
)
    requires
        came is CompanionUdpPeerRegistered,
        gone is CompanionUdpPeerUnregistered,
        came->CompanionUdpPeerRegistered_p2p_peer_addr@
            == gone->CompanionUdpPeerUnregistered_p2p_peer_addr@,
    ensures
        module.peer_action(came) matches PeerActionView::Register { peer_id, .. }
            ==> module.peer_action(gone) == (PeerActionView::Unregister { peer_id }),
{
}

/// A peer whose address text is an IP address with a port is registered at that address.
pub proof fn peer_is_registered_at_its_address(
    peer_id: Seq<char>,
    ip_text: Seq<char>,
    port: u16,
)
    ensures
        address::ip_address(ip_text) matches Some(ip) ==> registration(
            peer_id,
            address::with_port(ip_text, port),
        ) == (PeerActionView::Register { peer_id, udp_addr: SocketAddress::spec_new(ip, port) }),
{
    address::address_with_port(ip_text, port);
}

/// A peer whose address text is the text of a socket address is registered at that address.
pub proof fn peer_is_registered_at_written_address(peer_id: Seq<char>, a: SocketAddress)
    ensures
        registration(peer_id, written::socket_text(a)) == (PeerActionView::Register {
            peer_id,
            udp_addr: a,
        }),
{
    written::socket_address_is_read_back(a);
}

/// A mined block goes the way of a new block: the same failure without the node's API, and with it
/// a send of the same block from the same stage.
pub proof fn mined_block_is_sent_as_new_block(
    new: Result<Option<BlockSend>, ModuleError>,
    mined: Result<Option<BlockSend>, ModuleError>,
    block_hash: Option<[u8; 32]>,
    node_api: bool,
)
    requires
        is_block_send(new, block_hash, BlockSource::NewBlock, node_api),
        is_block_send(mined, block_hash, BlockSource::BlockMined, node_api),
    ensures
        match (new, mined) {
            (Ok(Some(a)), Ok(Some(b))) => a.spec_block_hash() == b.spec_block_hash() && a.stage()
                == b.stage(),
            (Ok(None), Ok(None)) => true,
            (Err(a), Err(b)) => a@ == b@,
            _ => false,
        },
{
}

/// A new block of which the node tells is the block that is sent, byte for byte: with the node's
/// API at hand a send of it begins, under the name of the event, by fetching the block.
pub proof fn new_block_is_the_block_sent(
    module: FibreModule,
    payload: EventPayload,
    hash: [u8; 32],
    r: Result<Option<BlockSend>, ModuleError>,
    sent: [u8; 32],
    source: BlockSource,
    label: &'static str,
    first: SendAction,
)
    requires
        payload == (EventPayload::NewBlock { block_hash: hash }),
        call_ensures(FibreModule::on_new_block, (&module, &payload, true), r),
        r matches Ok(Some(begun)) ==> call_ensures(BlockSend::block_hash, (&begun,), sent)
            && call_ensures(BlockSend::source, (&begun,), source) && call_ensures(
            BlockSend::action,
            (&begun,),
            first,
        ),
        call_ensures(BlockSource::label, (source,), label),
    ensures
        r matches Ok(Some(_)),
        sent@ == hash@,
        label@ == "NewBlock"@,
        first is FetchBlock,
{
}

/// The same of a block that the node mined.
pub proof fn mined_block_is_the_block_sent(
    module: FibreModule,
    payload: EventPayload,
    hash: [u8; 32],
    r: Result<Option<BlockSend>, ModuleError>,
    sent: [u8; 32],
    source: BlockSource,
    label: &'static str,
    first: SendAction,
)
    requires
        payload == (EventPayload::BlockMined { block_hash: hash }),
        call_ensures(FibreModule::on_block_mined, (&module, &payload, true), r),
        r matches Ok(Some(begun)) ==> call_ensures(BlockSend::block_hash, (&begun,), sent)
            && call_ensures(BlockSend::source, (&begun,), source) && call_ensures(
            BlockSend::action,
            (&begun,),
            first,
        ),
        call_ensures(BlockSource::label, (source,), label),
    ensures
        r matches Ok(Some(_)),
        sent@ == hash@,
        label@ == "BlockMined"@,
        first is FetchBlock,
{
}

/// Whether the node accepted a block or mined it, the same block is sent; different blocks are
/// not.
pub proof fn both_block_events_send_the_same_block(
    module: FibreModule,
    new: EventPayload,
    mined: EventPayload,
    a: BlockSend,
    b: BlockSend,
    new_sent: [u8; 32],
    mined_sent: [u8; 32],
)
    requires
        new is NewBlock,
        mined is BlockMined,
        call_ensures(
            FibreModule::on_new_block,
            (&module, &new, true),
            Ok::<Option<BlockSend>, ModuleError>(Some(a)),
        ),
        call_ensures(
            FibreModule::on_block_mined,
            (&module, &mined, true),
            Ok::<Option<BlockSend>, ModuleError>(Some(b)),
        ),
        call_ensures(BlockSend::block_hash, (&a,), new_sent),
        call_ensures(BlockSend::block_hash, (&b,), mined_sent),
    ensures
        new_sent == mined_sent <==> new->NewBlock_block_hash == mined->BlockMined_block_hash,
{
}

/// Other events begin no send, and without the node's API every block event fails and says why.
pub proof fn other_events_send_nothing(
    module: FibreModule,
    payload: EventPayload,
    node_api: bool,
    new: Result<Option<BlockSend>, ModuleError>,
    mined: Result<Option<BlockSend>, ModuleError>,
)
    requires
        call_ensures(FibreModule::on_new_block, (&module, &payload, node_api), new),
        call_ensures(FibreModule::on_block_mined, (&module, &payload, node_api), mined),
    ensures
        node_api && !(payload is NewBlock) ==> new matches Ok(None),
        node_api && !(payload is BlockMined) ==> mined matches Ok(None),
        !node_api ==> (new matches Err(ModuleError::Other(message)) && message@
            == "blvm-fibre: node_api required"@),
        !node_api ==> (mined matches Err(ModuleError::Other(message)) && message@
            == "blvm-fibre: node_api required"@),
{
}

/// A module that registers peers registers each peer that advertises a UDP address, of either
/// family, under the peer's own name at that very address, and refuses a peer exactly when its
/// address cannot be read.
pub proof fn advertised_peer_is_registered(
    module: FibreModule,
    payload: EventPayload,
    peer: String,
    text: String,
    a: SocketAddress,
    action: PeerAction,
)
    requires
        call_ensures(FibreModule::new, (true,), module),
        payload
            == (EventPayload::CompanionUdpPeerRegistered { p2p_peer_addr: peer, udp_addr: text }),
        call_ensures(FibreModule::on_companion_udp_peer_registered, (&module, &payload), action),
    ensures
        (action matches PeerAction::Register { peer_id, udp_addr } && peer_id@ == peer@ && udp_addr
            == a) <==> address::socket_address(text@) == Some(a),
        (action matches PeerAction::RejectAddress { peer_id, bad_addr } && peer_id@ == peer@
            && bad_addr@ == text@) <==> address::socket_address(text@) is None,
        text@ == written::socket_text(a)
            ==> (action matches PeerAction::Register { peer_id, udp_addr } && peer_id@ == peer@
            && udp_addr == a),
{
    written::socket_address_is_read_back(a);
}

/// A module that registers peers removes the peer that is gone, under the peer's own name.
pub proof fn gone_peer_is_removed(
    module: FibreModule,
    payload: EventPayload,
    peer: String,
    action: PeerAction,
)
    requires
        call_ensures(FibreModule::new, (true,), module),
        payload == (EventPayload::CompanionUdpPeerUnregistered { p2p_peer_addr: peer }),
        call_ensures(FibreModule::on_companion_udp_peer_unregistered, (&module, &payload), action),
    ensures
        action matches PeerAction::Unregister { peer_id } && peer_id@ == peer@,
{
}

/// A module that does not register peers keeps the peers as they are, whatever the event; and
/// each of the two handlers answers its own event only.
pub proof fn other_events_keep_the_peers(
    on: bool,
    module: FibreModule,
    payload: EventPayload,
    came: PeerAction,
    gone: PeerAction,
)
    requires
        call_ensures(FibreModule::new, (on,), module),
        call_ensures(FibreModule::on_companion_udp_peer_registered, (&module, &payload), came),
        call_ensures(FibreModule::on_companion_udp_peer_unregistered, (&module, &payload), gone),
    ensures
        !on || !(payload is CompanionUdpPeerRegistered) <==> came is Keep,
        !on || !(payload is CompanionUdpPeerUnregistered) <==> gone is Keep,
{
}

/// What registers a peer that comes is undone when it goes: the same name is removed.
pub proof fn what_comes_can_go(
    module: FibreModule,
    came: EventPayload,
    gone: EventPayload,
    on_came: PeerAction,
    on_gone: PeerAction,
)
    requires
        came is CompanionUdpPeerRegistered,
        gone is CompanionUdpPeerUnregistered,
        came->CompanionUdpPeerRegistered_p2p_peer_addr@
            == gone->CompanionUdpPeerUnregistered_p2p_peer_addr@,
        call_ensures(FibreModule::on_companion_udp_peer_registered, (&module, &came), on_came),
        call_ensures(FibreModule::on_companion_udp_peer_unregistered, (&module, &gone), on_gone),
    ensures
        on_came matches PeerAction::Register { peer_id: there, .. } ==> (
        on_gone matches PeerAction::Unregister { peer_id: away } && away@ == there@),
        on_came is Keep <==> on_gone is Keep,
{
}

/// A peer is registered under its name at the address that its text denotes, and refused, with its
/// text, exactly when the text denotes none.
pub proof fn readable_peer_is_registered(
    peer: String,
    text: String,
    a: SocketAddress,
    action: PeerAction,
)
    requires
        call_ensures(register_peer, (&peer, &text), action),
    ensures
        (action matches PeerAction::Register { peer_id, udp_addr } && peer_id@ == peer@ && udp_addr
            == a) <==> address::socket_address(text@) == Some(a),
        (action matches PeerAction::RejectAddress { peer_id, bad_addr } && peer_id@ == peer@
            && bad_addr@ == text@) <==> address::socket_address(text@) is None,
        text@ == written::socket_text(a)
            ==> (action matches PeerAction::Register { peer_id, udp_addr } && peer_id@ == peer@
            && udp_addr == a),
{
    written::socket_address_is_read_back(a);
}

} // verus!
