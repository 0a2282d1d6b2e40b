//! Sending one block to every registered FIBRE peer.
//!
//! A `BlockSend` says what to do next and is told how that went. It fetches the block, encodes it,
//! asks which peers are registered and sends to each of them in turn. A block that cannot be
//! fetched or encoded ends the send quietly; a peer that cannot be reached does not keep the block
//! from the others.

use vstd::prelude::*;

verus! {

/// Which event made the block known.
#[derive(Clone, Copy, Debug, PartialEq, Eq, Structural)]
pub enum BlockSource {
    /// The node accepted a new block.
    NewBlock,
    /// The node mined a block.
    BlockMined,
}

impl BlockSource {
    /// The name of the event.
    pub open spec fn spec_label(self) -> Seq<char> {
        match self {
            BlockSource::NewBlock => "NewBlock"@,
            BlockSource::BlockMined => "BlockMined"@,
        }
    }

    /// The name of the event.
    pub fn label(self) -> (label: &'static str)
        ensures
            label@ == self.spec_label(),
    {
        match self {
            BlockSource::NewBlock => "NewBlock",
            BlockSource::BlockMined => "BlockMined",
        }
    }
}

/// How far a send has come.
#[derive(Debug)]
enum Stage {
    Fetch,
    Encode,
    List,
    Send { peers: Vec<String>, next: usize },
    Done,
}

/// How far a send has come, over the peers' names.
pub enum StageView {
    /// The block is to be fetched from the node.
    Fetch,
    /// The block is to be encoded.
    Encode,
    /// The registered peers are to be listed.
    List,
    /// The block is to be sent to `peers[next]`.
    Send { peers: Seq<Seq<char>>, next: int },
    /// Nothing is left to do.
    Done,
}

/// What to do next.
#[derive(Debug)]
pub enum SendAction {
    /// Fetch the block from the node.
    FetchBlock,
    /// Encode the block that was fetched.
    EncodeBlock,
    /// List the identifiers of the registered peers.
    ListPeers,
    /// Send the encoded block to this peer.
    SendTo(String),
    /// Nothing: the send is over.
    Finish,
}

/// What to do next, over the peers' names.
pub enum ActionView {
    /// Fetch the block from the node.
    FetchBlock,
    /// Encode the block that was fetched.
    EncodeBlock,
    /// List the identifiers of the registered peers.
    ListPeers,
    /// Send the encoded block to this peer.
    SendTo(Seq<char>),
    /// Nothing: the send is over.
    Finish,
}

/// How an action went.
#[derive(Debug)]
pub enum SendEvent {
    /// The node handed out the block.
    BlockFetched,
    /// The node does not have the block.
    BlockMissing,
    /// The node could not be asked.
    FetchFailed,
    /// The block was encoded.
    Encoded,
    /// The block could not be encoded.
    EncodeFailed,
    /// The registered peers.
    Peers(Vec<String>),
    /// The peer was sent the block.
    Sent,
    /// The peer could not be sent the block.
    SendFailed,
}

/// How an action went, over the peers' names.
pub enum EventView {
    /// The node handed out the block.
    BlockFetched,
    /// The node does not have the block.
    BlockMissing,
    /// The node could not be asked.
    FetchFailed,
    /// The block was encoded.
    Encoded,
    /// The block could not be encoded.
    EncodeFailed,
    /// The registered peers.
    Peers(Seq<Seq<char>>),
    /// The peer was sent the block.
    Sent,
    /// The peer could not be sent the block.
    SendFailed,
}

/// The texts of strings.
pub open spec fn names(strings: Seq<String>) -> Seq<Seq<char>> {
    strings.map_values(|s: String| s@)
}

impl View for Stage {
    type V = StageView;

    closed spec fn view(&self) -> StageView {
        match *self {
            Stage::Fetch => StageView::Fetch,
            Stage::Encode => StageView::Encode,
            Stage::List => StageView::List,
            Stage::Send { peers, next } => StageView::Send {
                peers: names(peers@),
                next: next as int,
            },
            Stage::Done => StageView::Done,
        }
    }
}

impl View for SendAction {
    type V = ActionView;

    open spec fn view(&self) -> ActionView {
        match *self {
            SendAction::FetchBlock => ActionView::FetchBlock,
            SendAction::EncodeBlock => ActionView::EncodeBlock,
            SendAction::ListPeers => ActionView::ListPeers,
            SendAction::SendTo(peer) => ActionView::SendTo(peer@),
            SendAction::Finish => ActionView::Finish,
        }
    }
}

impl View for SendEvent {
    type V = EventView;

    open spec fn view(&self) -> EventView {
        match *self {
            SendEvent::BlockFetched => EventView::BlockFetched,
            SendEvent::BlockMissing => EventView::BlockMissing,
            SendEvent::FetchFailed => EventView::FetchFailed,
            SendEvent::Encoded => EventView::Encoded,
            SendEvent::EncodeFailed => EventView::EncodeFailed,
            SendEvent::Peers(peers) => EventView::Peers(names(peers@)),
            SendEvent::Sent => EventView::Sent,
            SendEvent::SendFailed => EventView::SendFailed,
        }
    }
}

/// What a stage asks for.
pub open spec fn action_at(stage: StageView) -> ActionView {
    match stage {
        StageView::Fetch => ActionView::FetchBlock,
        StageView::Encode => ActionView::EncodeBlock,
        StageView::List => ActionView::ListPeers,
        StageView::Send { peers, next } => ActionView::SendTo(peers[next]),
        StageView::Done => ActionView::Finish,
    }
}

/// The stage after an event. An event that is no answer to what was asked for changes nothing.
pub open spec fn stage_after(stage: StageView, event: EventView) -> StageView {
    match (stage, event) {
        (StageView::Fetch, EventView::BlockFetched) => StageView::Encode,
        (StageView::Fetch, EventView::BlockMissing) => StageView::Done,
        (StageView::Fetch, EventView::FetchFailed) => StageView::Done,
        (StageView::Encode, EventView::Encoded) => StageView::List,
        (StageView::Encode, EventView::EncodeFailed) => StageView::Done,
        (StageView::List, EventView::Peers(peers)) => if peers.len() == 0 {
            StageView::Done
        } else {
            StageView::Send { peers, next: 0 }
        },
        (StageView::Send { peers, next }, EventView::Sent) => next_peer(peers, next),
        (StageView::Send { peers, next }, EventView::SendFailed) => next_peer(peers, next),
        _ => stage,
    }
}

/// The stage after a send to `peers[next]`, however it went.
pub open spec fn next_peer(peers: Seq<Seq<char>>, next: int) -> StageView {
    if next + 1 < peers.len() {
        StageView::Send { peers, next: next + 1 }
    } else {
        StageView::Done
    }
}

/// One block on its way to every registered peer.
#[derive(Debug)]
pub struct BlockSend {
    block_hash: [u8; 32],
    source: BlockSource,
    stage: Stage,
}

impl BlockSend {
    /// The hash of the block.
    pub closed spec fn spec_block_hash(self) -> [u8; 32] {
        self.block_hash
    }

    /// Which event made the block known.
    pub closed spec fn spec_source(self) -> BlockSource {
        self.source
    }

    /// How far the send has come.
    pub closed spec fn stage(self) -> StageView {
        self.stage@
    }

    /// While peers are being sent to, there is a next one.
    #[verifier::type_invariant]
    spec fn has_next_peer(self) -> bool {
        self.stage matches Stage::Send { peers, next } ==> next < peers.len()
    }

    /// A send that has not begun.
    pub fn new(block_hash: [u8; 32], source: BlockSource) -> (send: BlockSend)
        ensures
            send.spec_block_hash() == block_hash,
            send.spec_source() == source,
            send.stage() == StageView::Fetch,
    {
        BlockSend { block_hash, source, stage: Stage::Fetch }
    }

    /// The hash of the block.
    pub fn block_hash(&self) -> (hash: [u8; 32])
        ensures
            hash == self.spec_block_hash(),
    {
        self.block_hash
    }

    /// Which event made the block known.
    pub fn source(&self) -> (source: BlockSource)
        ensures
            source == self.spec_source(),
    {
        self.source
    }

    /// What to do next.
    pub fn action(&self) -> (action: SendAction)
        ensures
            action@ == action_at(self.stage()),
    {
        proof {
            use_type_invariant(self);
        }
        match &self.stage {
            Stage::Fetch => SendAction::FetchBlock,
            Stage::Encode => SendAction::EncodeBlock,
            Stage::List => SendAction::ListPeers,
            Stage::Send { peers, next } => SendAction::SendTo(peers[*next].clone()),
            Stage::Done => SendAction::Finish,
        }
    }

    /// Takes note of how the action went.
    pub fn step(self, event: SendEvent) -> (send: BlockSend)
        ensures
            send.stage() == stage_after(self.stage(), event@),
            send.spec_block_hash() == self.spec_block_hash(),
            send.spec_source() == self.spec_source(),
    {
        proof {
            use_type_invariant(&self);
        }
        let block_hash: [u8; 32] = self.block_hash;
        let source: BlockSource = self.source;
        let stage: Stage = match (self.stage, event) {
            (Stage::Fetch, SendEvent::BlockFetched) => Stage::Encode,
            (Stage::Fetch, SendEvent::BlockMissing) => Stage::Done,
            (Stage::Fetch, SendEvent::FetchFailed) => Stage::Done,
            (Stage::Encode, SendEvent::Encoded) => Stage::List,
            (Stage::Encode, SendEvent::EncodeFailed) => Stage::Done,
            (Stage::List, SendEvent::Peers(peers)) => if peers.len() == 0 {
                Stage::Done
            } else {
                Stage::Send { peers, next: 0 }
            },
            (Stage::Send { peers, next }, SendEvent::Sent) => after_peer(peers, next),
            (Stage::Send { peers, next }, SendEvent::SendFailed) => after_peer(peers, next),
            (stage, _) => stage,
        };
        BlockSend { block_hash, source, stage }
    }
}

/// The stage after a send to `peers[next]`, however it went.
fn after_peer(peers: Vec<String>, next: usize) -> (stage: Stage)
    requires
        next < peers.len(),
    ensures
        stage@ == next_peer(names(peers@), next as int),
        stage matches Stage::Send { peers, next } ==> next < peers.len(),
{
    if next + 1 < peers.len() {
        Stage::Send { peers, next: next + 1 }
    } else {
        Stage::Done
    }
}

/// The stage of a new send after these events.
pub open spec fn stage_after_all(events: Seq<EventView>) -> StageView
    decreases events.len(),
{
    if events.len() == 0 {
        StageView::Fetch
    } else {
        stage_after(stage_after_all(events.drop_last()), events.last())
    }
}

/// What a new send asks for, first and after each of these events.
pub open spec fn actions(events: Seq<EventView>) -> Seq<ActionView> {
    Seq::new(events.len() + 1, |i: int| action_at(stage_after_all(events.take(i))))
}

/// Whether `event` is the answer to a send.
pub open spec fn is_send_outcome(event: EventView) -> bool {
    event is Sent || event is SendFailed
}

/// The events of a send whose block is fetched and encoded, whose peers are `peers`, and whose
/// sends to them went as `outcomes` say.
pub open spec fn run(peers: Seq<Seq<char>>, outcomes: Seq<EventView>) -> Seq<EventView> {
    seq![EventView::BlockFetched, EventView::Encoded, EventView::Peers(peers)] + outcomes
}

/// The stage after the first `k` sends of a run.
proof fn stage_in_run(peers: Seq<Seq<char>>, outcomes: Seq<EventView>, k: int)
    requires
        outcomes.len() == peers.len(),
        forall|i: int| 0 <= i < outcomes.len() ==> is_send_outcome(#[trigger] outcomes[i]),
        0 <= k <= peers.len(),
    ensures
        stage_after_all(run(peers, outcomes).take(3 + k)) == if k < peers.len() {
            StageView::Send { peers, next: k }
        } else {
            StageView::Done
        },
        k == 0 ==> stage_after_all(run(peers, outcomes).take(2)) == StageView::List,
        k == 0 ==> stage_after_all(run(peers, outcomes).take(1)) == StageView::Encode,
        k == 0 ==> stage_after_all(run(peers, outcomes).take(0)) == StageView::Fetch,
    decreases k,
{
    let events = run(peers, outcomes);
    if k == 0 {
        assert(events.take(1).drop_last() == events.take(0));
        assert(events.take(2).drop_last() == events.take(1));
        assert(events.take(3).drop_last() == events.take(2));
        assert(events.take(1).last() == EventView::BlockFetched);
        assert(events.take(2).last() == EventView::Encoded);
        assert(events.take(3).last() == EventView::Peers(peers));
        assert(stage_after_all(events.take(0)) == StageView::Fetch);
        assert(stage_after_all(events.take(1)) == StageView::Encode);
        assert(stage_after_all(events.take(2)) == StageView::List);
    } else {
        stage_in_run(peers, outcomes, k - 1);
        assert(events.take(3 + k).drop_last() == events.take(3 + (k - 1)));
        assert(events.take(3 + k).last() == outcomes[k - 1]);
    }
}

/// A block that is fetched and encoded is sent to every listed peer exactly once, in the order of
/// the list, whichever of the sends fail; then the send is over.
pub proof fn every_peer_is_sent_to_once(peers: Seq<Seq<char>>, outcomes: Seq<EventView>)
    requires
        outcomes.len() == peers.len(),
        forall|i: int| 0 <= i < outcomes.len() ==> is_send_outcome(#[trigger] outcomes[i]),
    ensures
        actions(run(peers, outcomes)) == seq![
            ActionView::FetchBlock,
            ActionView::EncodeBlock,
            ActionView::ListPeers,
        ] + peers.map_values(|p: Seq<char>| ActionView::SendTo(p)) + seq![ActionView::Finish],
{
    let events = run(peers, outcomes);
    let expected = seq![
        ActionView::FetchBlock,
        ActionView::EncodeBlock,
        ActionView::ListPeers,
    ] + peers.map_values(|p: Seq<char>| ActionView::SendTo(p)) + seq![ActionView::Finish];
    assert forall|i: int| 0 <= i < expected.len() implies actions(events)[i] == expected[i] by {
        if i < 3 {
            stage_in_run(peers, outcomes, 0);
        } else {
            stage_in_run(peers, outcomes, i - 3);
        }
    }
    assert(actions(events) == expected);
}

/// A send that is over stays over.
pub proof fn finished_send_stays_finished(events: Seq<EventView>, k: int)
    requires
        0 <= k <= events.len(),
        stage_after_all(events.take(k)) == StageView::Done,
    ensures
        stage_after_all(events) == StageView::Done,
    decreases events.len(),
{
    if k == events.len() {
        assert(events.take(k) == events);
    } else {
        assert(events.drop_last().take(k) == events.take(k));
        finished_send_stays_finished(events.drop_last(), k);
    }
}

/// A block that the node does not have, or could not be asked for, is neither encoded nor sent:
/// whatever happens later, the send is over.
pub proof fn missing_block_ends_the_send(first: EventView, later: Seq<EventView>, i: int)
    requires
        first is BlockMissing || first is FetchFailed,
        1 <= i <= later.len() + 1,
    ensures
        actions(seq![first] + later)[i] == ActionView::Finish,
{
    let events = seq![first] + later;
    let prefix = events.take(i);
    assert(prefix.take(1) == seq![first]);
    assert(seq![first].drop_last() == Seq::<EventView>::empty());
    assert(stage_after_all(Seq::<EventView>::empty()) == StageView::Fetch);
    assert(stage_after_all(prefix.take(1)) == StageView::Done);
    finished_send_stays_finished(prefix, 1);
}

/// A block that cannot be encoded is sent to nobody: whatever happens later, the send is over.
pub proof fn encoding_failure_ends_the_send(later: Seq<EventView>, i: int)
    requires
        2 <= i <= later.len() + 2,
    ensures
        actions(seq![EventView::BlockFetched, EventView::EncodeFailed] + later)[i]
            == ActionView::Finish,
{
    let first = seq![EventView::BlockFetched];
    let both = seq![EventView::BlockFetched, EventView::EncodeFailed];
    let prefix = (both + later).take(i);
    assert(prefix.take(2) == both);
    assert(both.drop_last() == first);
    assert(first.drop_last() == Seq::<EventView>::empty());
    assert(stage_after_all(Seq::<EventView>::empty()) == StageView::Fetch);
    assert(stage_after_all(first) == StageView::Encode);
    assert(stage_after_all(prefix.take(2)) == StageView::Done);
    finished_send_stays_finished(prefix, 2);
}

/// What must have happened for a send to have come this far.
spec fn accounts_for(events: Seq<EventView>, stage: StageView) -> bool {
    match stage {
        StageView::Fetch => true,
        StageView::Encode => events.contains(EventView::BlockFetched),
        StageView::List => {
            &&& events.contains(EventView::BlockFetched)
            &&& events.contains(EventView::Encoded)
        },
        StageView::Send { peers, next } => {
            &&& events.contains(EventView::BlockFetched)
            &&& events.contains(EventView::Encoded)
            &&& events.contains(EventView::Peers(peers))
            &&& 0 <= next < peers.len()
        },
        StageView::Done => true,
    }
}

/// Each stage is reached only through the events that lead to it.
proof fn stage_is_accounted_for(events: Seq<EventView>)
    ensures
        accounts_for(events, stage_after_all(events)),
    decreases events.len(),
{
    if events.len() > 0 {
        let init = events.drop_last();
        stage_is_accounted_for(init);
        assert(events == init.push(events.last()));
        assert forall|e: EventView| init.contains(e) implies events.contains(e) by {
            let i = init.index_of(e);
            assert(events[i] == e);
        }
        assert(events[events.len() - 1] == events.last());
        assert(events.contains(events.last()));
    }
}

/// Whatever events occur, in whatever order: a send to a peer is asked for only after the block
/// was fetched and encoded and the peer was listed.
pub proof fn only_encoded_blocks_go_to_listed_peers(events: Seq<EventView>, i: int)
    requires
        0 <= i <= events.len(),
    ensures
        actions(events)[i] matches ActionView::SendTo(peer) ==> {
            &&& events.take(i).contains(EventView::BlockFetched)
            &&& events.take(i).contains(EventView::Encoded)
            &&& exists|peers: Seq<Seq<char>>| #[trigger]
                events.take(i).contains(EventView::Peers(peers)) && peers.contains(peer)
        },
{
    stage_is_accounted_for(events.take(i));
    if let StageView::Send { peers, next } = stage_after_all(events.take(i)) {
        assert(peers.contains(peers[next]));
    }
}

/// What a send asks for after an event, given what it asked for before. The answer to the fetch,
/// to the encoding and to the list leads on or ends the send; an answer to a send leads to another
/// one or to the end; an event that is no answer changes nothing, and nothing follows the end.
pub proof fn answers_lead_on(
    send: BlockSend,
    event: SendEvent,
    next: BlockSend,
    asked: SendAction,
    then_asked: SendAction,
)
    requires
        call_ensures(BlockSend::action, (&send,), asked),
        call_ensures(BlockSend::step, (send, event), next),
        call_ensures(BlockSend::action, (&next,), then_asked),
    ensures
        asked is FetchBlock ==> match event {
            SendEvent::BlockFetched => then_asked is EncodeBlock,
            SendEvent::BlockMissing => then_asked is Finish,
            SendEvent::FetchFailed => then_asked is Finish,
            _ => then_asked is FetchBlock,
        },
        asked is EncodeBlock ==> match event {
            SendEvent::Encoded => then_asked is ListPeers,
            SendEvent::EncodeFailed => then_asked is Finish,
            _ => then_asked is EncodeBlock,
        },
        asked is ListPeers ==> match event {
            SendEvent::Peers(peers) => if peers@.len() == 0 {
                then_asked is Finish
            } else {
                then_asked matches SendAction::SendTo(peer) && peer@ == peers@[0]@
            },
            _ => then_asked is ListPeers,
        },
        asked matches SendAction::SendTo(peer) ==> match event {
            SendEvent::Sent => then_asked is SendTo || then_asked is Finish,
            SendEvent::SendFailed => then_asked is SendTo || then_asked is Finish,
            _ => then_asked matches SendAction::SendTo(same) && same@ == peer@,
        },
        asked is Finish ==> then_asked is Finish,
{
    if let SendEvent::Peers(peers) = event {
        if peers@.len() > 0 {
            assert(names(peers@)[0] == peers@[0]@);
        }
    }
}

/// However a peer took the block, the send goes on in the same way.
pub proof fn outcome_of_a_send_does_not_matter(
    send: BlockSend,
    sent: BlockSend,
    failed: BlockSend,
    after_sent: SendAction,
    after_failed: SendAction,
)
    requires
        call_ensures(BlockSend::step, (send, SendEvent::Sent), sent),
        call_ensures(BlockSend::step, (send, SendEvent::SendFailed), failed),
        call_ensures(BlockSend::action, (&sent,), after_sent),
        call_ensures(BlockSend::action, (&failed,), after_failed),
    ensures
        after_sent@ == after_failed@,
{
}

/// Whether `sends` are the states of a send of this block and `asked` what they ask for, first and
/// after each of the events.
pub open spec fn is_trace(
    block_hash: [u8; 32],
    source: BlockSource,
    events: Seq<SendEvent>,
    sends: Seq<BlockSend>,
    asked: Seq<SendAction>,
) -> bool {
    &&& sends.len() == events.len() + 1
    &&& asked.len() == events.len() + 1
    &&& call_ensures(BlockSend::new, (block_hash, source), sends[0])
    &&& forall|i: int|
        0 <= i < events.len() ==> call_ensures(
            BlockSend::step,
            (sends[i], #[trigger] events[i]),
            sends[i + 1],
        )
    &&& forall|i: int|
        0 <= i < asked.len() ==> call_ensures(BlockSend::action, (&sends[i],), #[trigger] asked[i])
}

/// The events, over the peers' names.
pub open spec fn event_views(events: Seq<SendEvent>) -> Seq<EventView> {
    events.map_values(|e: SendEvent| e@)
}

/// How far the states of a trace have come, and whose block they send.
proof fn trace_is_modelled(
    block_hash: [u8; 32],
    source: BlockSource,
    events: Seq<SendEvent>,
    sends: Seq<BlockSend>,
    asked: Seq<SendAction>,
    i: int,
)
    requires
        is_trace(block_hash, source, events, sends, asked),
        0 <= i <= events.len(),
    ensures
        sends[i].stage() == stage_after_all(event_views(events).take(i)),
        sends[i].spec_block_hash() == block_hash,
        sends[i].spec_source() == source,
        asked[i]@ == actions(event_views(events))[i],
    decreases i,
{
    let views = event_views(events);
    assert(call_ensures(BlockSend::action, (&sends[i],), asked[i]));
    if i > 0 {
        trace_is_modelled(block_hash, source, events, sends, asked, i - 1);
        assert(call_ensures(BlockSend::step, (sends[i - 1], events[i - 1]), sends[i - 1 + 1]));
        assert(views.take(i).drop_last() == views.take(i - 1));
        assert(views.take(i).last() == events[i - 1]@);
    }
}

/// A send asks for the block first, and from its beginning to its end it is a send of the block
/// with which it began, from the same event.
pub proof fn trace_sends_one_block(
    block_hash: [u8; 32],
    source: BlockSource,
    events: Seq<SendEvent>,
    sends: Seq<BlockSend>,
    asked: Seq<SendAction>,
    i: int,
    hash: [u8; 32],
    from: BlockSource,
)
    requires
        is_trace(block_hash, source, events, sends, asked),
        0 <= i <= events.len(),
        call_ensures(BlockSend::block_hash, (&sends[i],), hash),
        call_ensures(BlockSend::source, (&sends[i],), from),
    ensures
        asked[0] is FetchBlock,
        hash@ == block_hash@,
        from == source,
{
    trace_is_modelled(block_hash, source, events, sends, asked, 0);
    trace_is_modelled(block_hash, source, events, sends, asked, i);
    assert(event_views(events).take(0).len() == 0);
}

/// How many of the events are answers to a send.
pub open spec fn outcomes_in(events: Seq<SendEvent>) -> int
    decreases events.len(),
{
    if events.len() == 0 {
        0
    } else {
        outcomes_in(events.drop_last()) + if events.last() is Sent || events.last() is SendFailed {
            1int
        } else {
            0
        }
    }
}

/// There are at least no answers.
proof fn outcomes_are_not_negative(events: Seq<SendEvent>)
    ensures
        outcomes_in(events) >= 0,
    decreases events.len(),
{
    if events.len() > 0 {
        outcomes_are_not_negative(events.drop_last());
    }
}

/// The stage after peers were listed.
proof fn stage_after_list(
    block_hash: [u8; 32],
    source: BlockSource,
    events: Seq<SendEvent>,
    sends: Seq<BlockSend>,
    asked: Seq<SendAction>,
    j: int,
    peers: Vec<String>,
    k: int,
)
    requires
        is_trace(block_hash, source, events, sends, asked),
        0 <= j < k <= events.len(),
        asked[j] is ListPeers,
        events[j] == SendEvent::Peers(peers),
    ensures
        sends[k].stage() == if outcomes_in(events.subrange(j + 1, k)) < peers@.len() {
            StageView::Send { peers: names(peers@), next: outcomes_in(events.subrange(j + 1, k)) }
        } else {
            StageView::Done
        },
    decreases k,
{
    let between = events.subrange(j + 1, k);
    assert(call_ensures(BlockSend::step, (sends[k - 1], events[k - 1]), sends[k - 1 + 1]));
    outcomes_are_not_negative(between);
    if k == j + 1 {
        assert(call_ensures(BlockSend::action, (&sends[j],), asked[j]));
        assert(between.len() == 0);
    } else {
        stage_after_list(block_hash, source, events, sends, asked, j, peers, k - 1);
        assert(between.drop_last() == events.subrange(j + 1, k - 1));
        assert(between.last() == events[k - 1]);
        outcomes_are_not_negative(between.drop_last());
    }
}

/// Once the peers are listed, the block goes to each of them in the order of the list: after as
/// many answers as there are peers before it comes the turn of each, whichever sends failed and
/// whatever other events came in between, and after the last of them the send is over.
pub proof fn listed_peers_take_turns(
    block_hash: [u8; 32],
    source: BlockSource,
    events: Seq<SendEvent>,
    sends: Seq<BlockSend>,
    asked: Seq<SendAction>,
    j: int,
    peers: Vec<String>,
    k: int,
)
    requires
        is_trace(block_hash, source, events, sends, asked),
        0 <= j < k <= events.len(),
        asked[j] is ListPeers,
        events[j] == SendEvent::Peers(peers),
    ensures
        0 <= outcomes_in(events.subrange(j + 1, k)),
        outcomes_in(events.subrange(j + 1, k)) < peers@.len() ==> (
        asked[k] matches SendAction::SendTo(peer) && peer@ == peers@[outcomes_in(
            events.subrange(j + 1, k),
        )]@),
        outcomes_in(events.subrange(j + 1, k)) >= peers@.len() ==> asked[k] is Finish,
{
    let n = outcomes_in(events.subrange(j + 1, k));
    outcomes_are_not_negative(events.subrange(j + 1, k));
    stage_after_list(block_hash, source, events, sends, asked, j, peers, k);
    assert(call_ensures(BlockSend::action, (&sends[k],), asked[k]));
    if n < peers@.len() {
        assert(names(peers@)[n] == peers@[n]@);
    }
}

/// A block goes to a peer only after it was fetched and encoded and the peer was listed, whatever
/// events occur in whatever order.
pub proof fn nothing_goes_out_before_its_time(
    block_hash: [u8; 32],
    source: BlockSource,
    events: Seq<SendEvent>,
    sends: Seq<BlockSend>,
    asked: Seq<SendAction>,
    i: int,
)
    requires
        is_trace(block_hash, source, events, sends, asked),
        0 <= i <= events.len(),
    ensures
        asked[i] matches SendAction::SendTo(peer) ==> {
            &&& exists|k: int| 0 <= k < i && (#[trigger] events[k]) is BlockFetched
            &&& exists|k: int| 0 <= k < i && (#[trigger] events[k]) is Encoded
            &&& exists|k: int|
                0 <= k < i && ((#[trigger] events[k]) matches SendEvent::Peers(peers) && names(
                    peers@,
                ).contains(peer@))
        },
{
    let views = event_views(events).take(i);
    trace_is_modelled(block_hash, source, events, sends, asked, i);
    if let SendAction::SendTo(peer) = asked[i] {
        only_encoded_blocks_go_to_listed_peers(event_views(events), i);
        let fetched = views.index_of(EventView::BlockFetched);
        assert(views[fetched] == events[fetched]@);
        assert(events[fetched] is BlockFetched);
        let encoded = views.index_of(EventView::Encoded);
        assert(views[encoded] == events[encoded]@);
        assert(events[encoded] is Encoded);
        let list = choose|peers: Seq<Seq<char>>| #[trigger]
            views.contains(EventView::Peers(peers)) && peers.contains(peer@);
        let listed = views.index_of(EventView::Peers(list));
        assert(views[listed] == events[listed]@);
        assert(events[listed] matches SendEvent::Peers(peers) && names(peers@).contains(peer@));
    }
}

} // verus!
