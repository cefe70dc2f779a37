//! What the state of the behaviour is, and what each of its operations does to it.

use libp2p::gossipsub::{Gossipsub, TopicHash};
use libp2p::identify::Identify;
use libp2p::PeerId;
use std::sync::Arc;
use vstd::prelude::*;

use crate::gossip::{
    cached_messages, gossip_config, gossip_settings, gossip_source, joined_by, joined_topics,
    left_by, propagated, published, topic_key, GossipSettings,
};
use crate::rpc::{Ping, Protocol, RPCCodedResponse, RPCEvent, RPCMessage, RPCRequest, RPCResponse};
use crate::seen::{cache_wf, touched};
use crate::subscriptions::{on_fork, with_topic, without_topic};
use crate::types::{
    default_encoding, Enr, EnrBitfield, EnrForkId, GossipKind, GossipTopic, GossipsubEvent,
    IdentifyEvent, IdentifyInfo, MessageId, MetaData, OutgoingMessage, PeerManagerEvent,
    RequestId, SubnetId,
};

verus! {

/// The number of listening addresses that are kept of an identified peer.
pub const MAX_IDENTIFY_ADDRESSES: usize = 10;

/// The number of gossip messages that are remembered in order to filter out duplicates.
pub const MAX_SEEN_GOSSIP_MESSAGES: usize = 100_000;

/// The types of events that can be obtained from polling the behaviour.
#[derive(Debug, PartialEq, Eq)]
pub enum BehaviourEvent<M, P> {
    /// A received RPC event and the peer that it was received from.
    RPC(PeerId, RPCEvent<P>),
    PubsubMessage {
        /// The gossipsub message id. Used when propagating blocks after validation.
        id: MessageId,
        /// The peer from which we received this message, not the peer that published it.
        source: PeerId,
        /// The topics that this message was sent on.
        topics: Vec<TopicHash>,
        /// The message itself.
        message: M,
    },
    /// Subscribed to peer for given topic.
    PeerSubscribed(PeerId, TopicHash),
    /// Inform the network to send a Status to this peer.
    StatusPeer(PeerId),
}

/// What the behaviour asks of the RPC protocol, the discovery protocol and the peer manager. The
/// commands are to be carried out in the order in which they were issued.
#[derive(Debug, PartialEq, Eq)]
pub enum Command<P> {
    /// RPC: send a request or a response to the peer.
    SendRpc(PeerId, RPCEvent<P>),
    /// Discovery: the peer has been banned.
    PeerBanned(PeerId),
    /// Discovery: the peer has been unbanned.
    PeerUnbanned(PeerId),
    /// Discovery: add the record to the routing table.
    AddEnr(Enr),
    /// Discovery: set or clear the bit of the subnet in the local record, then hand the outcome
    /// and the bitfield of the local record to `enr_subnet_updated`.
    UpdateEnrBitfield(SubnetId, bool),
    /// Discovery: look for peers on the subnet.
    PeersRequest(SubnetId),
    /// Discovery: announce the fork in the local record.
    UpdateEth2Enr(EnrForkId),
    /// Peer manager: the peer sent a ping with this sequence number.
    PingRequest(PeerId, u64),
    /// Peer manager: the peer answered a ping with this sequence number.
    PongResponse(PeerId, u64),
    /// Peer manager: the peer sent its meta data.
    MetaDataResponse(PeerId, MetaData),
    /// Peer manager: a status came from the peer.
    PeerStatusd(PeerId),
    /// Peer manager: an exchange with the peer failed.
    HandleRpcError(PeerId, Protocol, Arc<P>),
    /// Peer manager: the peer identified itself.
    Identify(PeerId, IdentifyInfo),
}

/// Whether `topic_name` names every topic, and always by the same name.
pub open spec fn naming<N: Fn(GossipTopic) -> String>(topic_name: N) -> bool {
    &&& forall|topic: GossipTopic| #[trigger] call_requires(topic_name, (topic,))
    &&& forall|topic: GossipTopic, name: String| #[trigger]
        call_ensures(topic_name, (topic,), name) ==> name@ == name_of(topic_name, topic)
}

/// The name that `topic_name` gives to a topic.
pub open spec fn name_of<N: Fn(GossipTopic) -> String>(topic_name: N, topic: GossipTopic) -> Seq<
    char,
> {
    (choose|name: String| call_ensures(topic_name, (topic,), name))@
}

/// The text by which a gossip protocol with these parameters knows a topic.
pub open spec fn key_of<N: Fn(GossipTopic) -> String>(
    settings: GossipSettings,
    topic_name: N,
    topic: GossipTopic,
) -> Seq<char> {
    topic_key(settings, name_of(topic_name, topic))
}

/// The texts by which a gossip protocol with these parameters knows the topics of a list.
pub open spec fn keys_of<N: Fn(GossipTopic) -> String>(
    settings: GossipSettings,
    topic_name: N,
    topics: Seq<GossipTopic>,
) -> Set<Seq<char>> {
    topics.to_set().map(|topic: GossipTopic| key_of(settings, topic_name, topic))
}

/// The state of the behaviour.
#[verifier::ext_equal]
pub struct BehaviourView<M, P, N> {
    /// The gossip protocol.
    pub gossipsub: Gossipsub,
    /// The parameters that the gossip protocol was set up with.
    pub settings: GossipSettings,
    /// The identify protocol.
    pub identify: Identify,
    /// The events that polling has yet to hand out, the oldest first.
    pub events: Seq<BehaviourEvent<M, P>>,
    /// The commands that have yet to be carried out, the oldest first.
    pub commands: Seq<Command<P>>,
    /// The meta data of the local node.
    pub meta_data: MetaData,
    /// The ids of the gossip messages seen last, the latest first.
    pub seen: Seq<Seq<char>>,
    /// The number of ids that are remembered.
    pub seen_capacity: nat,
    /// The topics that the node is subscribed to.
    pub subscriptions: Seq<GossipTopic>,
    /// The fork that the node follows.
    pub enr_fork_id: EnrForkId,
    /// How topics are named on the wire.
    pub topic_name: N,
}

impl<M, P, N: Fn(GossipTopic) -> String> BehaviourView<M, P, N> {
    /// What holds of the state at all times.
    pub open spec fn wf(self) -> bool {
        &&& cache_wf(self.seen, self.seen_capacity)
        &&& self.subscriptions.no_duplicates()
        &&& gossip_settings(self.gossipsub) == self.settings
        &&& naming(self.topic_name)
    }

    /// The text by which the gossip protocol knows a topic.
    pub open spec fn key(self, topic: GossipTopic) -> Seq<char> {
        key_of(self.settings, self.topic_name, topic)
    }

    /// The texts by which the gossip protocol knows the topics of a list.
    pub open spec fn keys(self, topics: Seq<GossipTopic>) -> Set<Seq<char>> {
        keys_of(self.settings, self.topic_name, topics)
    }

    /// The topic of a kind on the current fork.
    pub open spec fn topic(self, kind: GossipKind) -> GossipTopic {
        GossipTopic {
            kind,
            encoding: default_encoding(),
            fork_digest: self.enr_fork_id.fork_digest,
        }
    }

    /// What the gossip protocol is subscribed to.
    pub open spec fn joined(self) -> Set<Seq<char>> {
        joined_topics(self.gossipsub)
    }

    /// The ids of the messages that are waiting in the cache of the gossip protocol.
    pub open spec fn cached(self) -> Set<Seq<char>> {
        cached_messages(self.gossipsub)
    }

    /// The state after a command has been issued.
    pub open spec fn commanding(self, command: Command<P>) -> Self {
        BehaviourView { commands: self.commands.push(command), ..self }
    }

    /// The state after the subnets have been read anew: the sequence number has grown by one.
    pub open spec fn with_new_attnets(self, attnets: EnrBitfield) -> Self {
        BehaviourView {
            meta_data: MetaData {
                seq_number: (self.meta_data.seq_number + 1) as u64,
                attnets,
            },
            ..self
        }
    }
}

/// One more topic brings one more key.
pub proof fn lemma_keys_push<N: Fn(GossipTopic) -> String>(
    settings: GossipSettings,
    topic_name: N,
    topics: Seq<GossipTopic>,
    topic: GossipTopic,
)
    ensures
        keys_of(settings, topic_name, topics.push(topic)) == keys_of(
            settings,
            topic_name,
            topics,
        ).insert(key_of(settings, topic_name, topic)),
{
    let after = topics.push(topic);
    let key = |t: GossipTopic| key_of(settings, topic_name, t);
    let keys = keys_of(settings, topic_name, topics);
    let keys_after = keys_of(settings, topic_name, after);
    assert forall|k: Seq<char>| keys_after.contains(k) <==> keys.insert(key(topic)).contains(k) by {
        if keys_after.contains(k) {
            let t = choose|t: GossipTopic| #[trigger] after.to_set().contains(t) && k == key(t);
            let i = choose|i: int| 0 <= i < after.len() && after[i] == t;
            if i < topics.len() {
                assert(topics[i] == t);
                assert(topics.to_set().contains(t));
            }
        }
        if keys.contains(k) {
            let t = choose|t: GossipTopic| #[trigger] topics.to_set().contains(t) && k == key(t);
            let i = choose|i: int| 0 <= i < topics.len() && topics[i] == t;
            assert(after[i] == t);
            assert(after.to_set().contains(t));
        }
        if k == key(topic) {
            assert(after[topics.len() as int] == topic);
            assert(after.to_set().contains(topic));
        }
    }
    assert(keys_after =~= keys.insert(key(topic)));
}

/// A topic added to a list brings its key with it.
pub proof fn lemma_keys_with_topic<N: Fn(GossipTopic) -> String>(
    settings: GossipSettings,
    topic_name: N,
    topics: Seq<GossipTopic>,
    topic: GossipTopic,
)
    ensures
        keys_of(settings, topic_name, with_topic(topics, topic)) == keys_of(
            settings,
            topic_name,
            topics,
        ).insert(key_of(settings, topic_name, topic)),
{
    if topics.contains(topic) {
        let key = |t: GossipTopic| key_of(settings, topic_name, t);
        let keys = keys_of(settings, topic_name, topics);
        assert(topics.to_set().contains(topic));
        assert(keys.contains(key(topic)));
        assert(keys =~= keys.insert(key(topic)));
    } else {
        lemma_keys_push(settings, topic_name, topics, topic);
    }
}

/// Whether two states of the gossip protocol have the same configuration and the same source.
pub open spec fn same_gossip_setup(before: Gossipsub, after: Gossipsub) -> bool {
    &&& gossip_config(after) == gossip_config(before)
    &&& gossip_source(after) == gossip_source(before)
}

/// What the gossip protocol can be told about a topic, by the topic's name.
pub enum TopicCall {
    Leave(Seq<char>),
    Join(Seq<char>),
}

/// Whether the gossip protocol can be left in the state `after` when it is told this once, in the
/// state `before`.
pub open spec fn called(before: Gossipsub, call: TopicCall, after: Gossipsub) -> bool {
    match call {
        TopicCall::Leave(name) => left_by(before, name, after),
        TopicCall::Join(name) => joined_by(before, name, after),
    }
}

/// Whether the gossip protocol can be left in the state `after` when it is told these things, one
/// after the other and each once, in the state `before`.
pub open spec fn all_called(before: Gossipsub, calls: Seq<TopicCall>, after: Gossipsub) -> bool
    decreases calls.len(),
{
    if calls.len() == 0 {
        after == before
    } else {
        exists|mid: Gossipsub|
            all_called(before, calls.drop_last(), mid) && #[trigger] called(
                mid,
                calls.last(),
                after,
            )
    }
}

/// One more call follows on those before it.
pub proof fn lemma_call_push(
    before: Gossipsub,
    calls: Seq<TopicCall>,
    mid: Gossipsub,
    call: TopicCall,
    after: Gossipsub,
)
    requires
        all_called(before, calls, mid),
        called(mid, call, after),
    ensures
        all_called(before, calls.push(call), after),
{
    assert(calls.push(call).drop_last() =~= calls);
    assert(called(mid, calls.push(call).last(), after));
}

/// The calls that leave each topic of a list.
pub open spec fn leave_calls<N: Fn(GossipTopic) -> String>(
    topic_name: N,
    topics: Seq<GossipTopic>,
) -> Seq<TopicCall> {
    topics.map_values(|topic: GossipTopic| TopicCall::Leave(name_of(topic_name, topic)))
}

/// The calls that join the counterpart on another fork of each topic of a list.
pub open spec fn join_calls<N: Fn(GossipTopic) -> String>(
    topic_name: N,
    topics: Seq<GossipTopic>,
    fork_digest: [u8; 4],
) -> Seq<TopicCall> {
    topics.map_values(
        |topic: GossipTopic| TopicCall::Join(name_of(topic_name, topic.on_fork(fork_digest))),
    )
}

/// The subscriptions of the gossip protocol, once it has left the topics `left` and then joined
/// the topics `entered`. Where topics are shared with no peer at all, those entered may be
/// missing.
pub open spec fn rejoined(
    settings: GossipSettings,
    before: Set<Seq<char>>,
    left: Set<Seq<char>>,
    entered: Set<Seq<char>>,
    after: Set<Seq<char>>,
) -> bool {
    &&& before.difference(left).subset_of(after)
    &&& after.subset_of(before.difference(left).union(entered))
    &&& settings.mesh_n > 0 ==> after == before.difference(left).union(entered)
}

/// Subscribing to a topic: the topic is in the list of subscriptions, the gossip protocol has
/// been told once to join it, and `fresh` says whether it had not joined it before.
pub open spec fn subscribed<M, P, N: Fn(GossipTopic) -> String>(
    before: BehaviourView<M, P, N>,
    topic: GossipTopic,
    fresh: bool,
    after: BehaviourView<M, P, N>,
) -> bool {
    &&& after == BehaviourView {
        gossipsub: after.gossipsub,
        subscriptions: with_topic(before.subscriptions, topic),
        ..before
    }
    &&& same_gossip_setup(before.gossipsub, after.gossipsub)
    &&& after.cached() == before.cached()
    &&& joined_by(before.gossipsub, name_of(before.topic_name, topic), after.gossipsub)
    &&& fresh == !before.joined().contains(before.key(topic))
    &&& rejoined(
        before.settings,
        before.joined(),
        Set::empty(),
        set![before.key(topic)],
        after.joined(),
    )
}

/// Unsubscribing from a topic: the topic is not in the list of subscriptions, the gossip protocol
/// has been told once to leave it and has left it, and `was_joined` says whether it had joined it
/// before.
pub open spec fn unsubscribed<M, P, N: Fn(GossipTopic) -> String>(
    before: BehaviourView<M, P, N>,
    topic: GossipTopic,
    was_joined: bool,
    after: BehaviourView<M, P, N>,
) -> bool {
    &&& after == BehaviourView {
        gossipsub: after.gossipsub,
        subscriptions: without_topic(before.subscriptions, topic),
        ..before
    }
    &&& same_gossip_setup(before.gossipsub, after.gossipsub)
    &&& after.cached() == before.cached()
    &&& left_by(before.gossipsub, name_of(before.topic_name, topic), after.gossipsub)
    &&& was_joined == before.joined().contains(before.key(topic))
    &&& after.joined() == before.joined().remove(before.key(topic))
}

/// Moving to another fork: discovery is told of it, every topic that the node is subscribed to
/// has been left, and its counterpart on the new fork joined in its place. The gossip protocol is
/// told once to leave each of the topics, and then once for each of them to join its counterpart.
pub open spec fn forked<M, P, N: Fn(GossipTopic) -> String>(
    before: BehaviourView<M, P, N>,
    enr_fork_id: EnrForkId,
    after: BehaviourView<M, P, N>,
) -> bool {
    &&& after == BehaviourView {
        gossipsub: after.gossipsub,
        subscriptions: on_fork(before.subscriptions, enr_fork_id.fork_digest),
        commands: before.commands.push(Command::UpdateEth2Enr(enr_fork_id)),
        enr_fork_id,
        ..before
    }
    &&& same_gossip_setup(before.gossipsub, after.gossipsub)
    &&& after.cached() == before.cached()
    &&& all_called(
        before.gossipsub,
        leave_calls(before.topic_name, before.subscriptions) + join_calls(
            before.topic_name,
            before.subscriptions,
            enr_fork_id.fork_digest,
        ),
        after.gossipsub,
    )
    &&& rejoined(
        before.settings,
        before.joined(),
        before.keys(before.subscriptions),
        before.keys(on_fork(before.subscriptions, enr_fork_id.fork_digest)),
        after.joined(),
    )
}

impl<M, P, N: Fn(GossipTopic) -> String> BehaviourView<M, P, N> {
    /// What is published of a message that could be encoded: its data, on the topic of each of
    /// the kinds it belongs to.
    pub open spec fn publications_of(self, kinds: Seq<GossipKind>, data: Seq<u8>) -> Seq<
        (Seq<char>, Seq<u8>),
    > {
        kinds.map_values(|kind: GossipKind| (name_of(self.topic_name, self.topic(kind)), data))
    }

    /// What is published of a list of messages, in order: nothing of those that could not be
    /// encoded.
    pub open spec fn publications(self, messages: Seq<OutgoingMessage>) -> Seq<
        (Seq<char>, Seq<u8>),
    >
        decreases messages.len(),
    {
        if messages.len() == 0 {
            Seq::empty()
        } else {
            let earlier = self.publications(messages.drop_last());
            match messages.last().encoded {
                Ok(data) => earlier + self.publications_of(messages.last().kinds@, data@),
                Err(_) => earlier,
            }
        }
    }
}

/// Whether the gossip protocol can be left in the state `after` when it is handed these
/// publications, one after the other, in the state `before`.
pub open spec fn all_published(
    before: Gossipsub,
    publications: Seq<(Seq<char>, Seq<u8>)>,
    after: Gossipsub,
) -> bool
    decreases publications.len(),
{
    if publications.len() == 0 {
        after == before
    } else {
        exists|mid: Gossipsub|
            all_published(before, publications.drop_last(), mid) && #[trigger] published(
                mid,
                publications.last().0,
                publications.last().1,
                after,
            )
    }
}

/// The first messages of a list are published no more often than all of them.
pub proof fn lemma_publications_grow<M, P, N: Fn(GossipTopic) -> String>(
    state: BehaviourView<M, P, N>,
    messages: Seq<OutgoingMessage>,
    n: int,
)
    requires
        0 <= n <= messages.len(),
    ensures
        state.publications(messages.take(n)).len() <= state.publications(messages).len(),
    decreases messages.len(),
{
    if n == messages.len() {
        assert(messages.take(n) =~= messages);
    } else {
        lemma_publications_grow(state, messages.drop_last(), n);
        assert(messages.drop_last().take(n) =~= messages.take(n));
    }
}

/// Publishing a list of messages: the gossip protocol is handed the publications of the list, in
/// order and each once; what it is subscribed to stands, and its cache loses nothing.
pub open spec fn messages_published<M, P, N: Fn(GossipTopic) -> String>(
    before: BehaviourView<M, P, N>,
    messages: Seq<OutgoingMessage>,
    after: BehaviourView<M, P, N>,
) -> bool {
    &&& after == BehaviourView { gossipsub: after.gossipsub, ..before }
    &&& same_gossip_setup(before.gossipsub, after.gossipsub)
    &&& after.joined() == before.joined()
    &&& before.cached().subset_of(after.cached())
    &&& all_published(before.gossipsub, before.publications(messages), after.gossipsub)
}

/// Forwarding a message: the gossip protocol is told once to propagate it, and nothing happens if
/// the message is not in its cache.
pub open spec fn message_propagated<M, P, N: Fn(GossipTopic) -> String>(
    before: BehaviourView<M, P, N>,
    source: PeerId,
    id: Seq<char>,
    after: BehaviourView<M, P, N>,
) -> bool {
    &&& after == BehaviourView { gossipsub: after.gossipsub, ..before }
    &&& same_gossip_setup(before.gossipsub, after.gossipsub)
    &&& after.joined() == before.joined()
    &&& after.cached() == before.cached()
    &&& !before.cached().contains(id) ==> after == before
    &&& propagated(before.gossipsub, id, source, after.gossipsub)
}

/// The ping that tells our sequence number.
pub open spec fn our_ping(meta_data: MetaData) -> Ping {
    Ping { data: meta_data.seq_number }
}

/// A ping request or its answer.
pub open spec fn ping_event<P>(id: RequestId, meta_data: MetaData, is_request: bool) -> RPCEvent<P> {
    if is_request {
        RPCEvent::Request(id, RPCRequest::Ping(our_ping(meta_data)))
    } else {
        RPCEvent::Response(id, RPCCodedResponse::Success(RPCResponse::Pong(our_ping(meta_data))))
    }
}

/// The request for a peer's meta data.
pub open spec fn meta_data_request<P>() -> RPCEvent<P> {
    RPCEvent::Request(0, RPCRequest::MetaData)
}

/// The answer to a request for our meta data.
pub open spec fn meta_data_response<P>(id: RequestId, meta_data: MetaData) -> RPCEvent<P> {
    RPCEvent::Response(id, RPCCodedResponse::Success(RPCResponse::MetaData(meta_data)))
}

/// What the behaviour asks for when an RPC event comes in.
pub open spec fn rpc_commands<P>(meta_data: MetaData, message: RPCMessage<P>) -> Seq<Command<P>> {
    let peer_id = message.peer_id;
    match message.event {
        RPCEvent::Request(id, RPCRequest::Ping(ping)) => seq![
            Command::PingRequest(peer_id, ping.data),
            Command::SendRpc(peer_id, ping_event(id, meta_data, false)),
        ],
        RPCEvent::Request(id, RPCRequest::MetaData) => seq![
            Command::SendRpc(peer_id, meta_data_response(id, meta_data)),
        ],
        RPCEvent::Request(_, RPCRequest::Status(_)) => seq![Command::PeerStatusd(peer_id)],
        RPCEvent::Response(_, RPCCodedResponse::Success(RPCResponse::Pong(ping))) => seq![
            Command::PongResponse(peer_id, ping.data),
        ],
        RPCEvent::Response(_, RPCCodedResponse::Success(RPCResponse::MetaData(theirs))) => seq![
            Command::MetaDataResponse(peer_id, theirs),
        ],
        RPCEvent::Response(_, RPCCodedResponse::Success(RPCResponse::Status(_))) => seq![
            Command::PeerStatusd(peer_id),
        ],
        RPCEvent::Error(_, protocol, error) => seq![
            Command::HandleRpcError(peer_id, protocol, error),
        ],
        _ => Seq::empty(),
    }
}

/// Whether an RPC event is dealt with in the behaviour, and not handed to the network.
pub open spec fn handled_within<P>(event: RPCEvent<P>) -> bool {
    match event {
        RPCEvent::Request(_, RPCRequest::Ping(_)) => true,
        RPCEvent::Request(_, RPCRequest::MetaData) => true,
        RPCEvent::Response(_, RPCCodedResponse::Success(RPCResponse::Pong(_))) => true,
        RPCEvent::Response(_, RPCCodedResponse::Success(RPCResponse::MetaData(_))) => true,
        _ => false,
    }
}

/// What the network learns when an RPC event comes in.
pub open spec fn rpc_events<M, P>(message: RPCMessage<P>) -> Seq<BehaviourEvent<M, P>> {
    if handled_within(message.event) {
        Seq::empty()
    } else {
        seq![BehaviourEvent::RPC(message.peer_id, message.event)]
    }
}

/// What the network learns when an event of the gossip protocol comes in: each message that can
/// be decoded, unless its id is among those seen, and each subscription of a peer.
pub open spec fn gossip_events<M, P>(seen: Seq<Seq<char>>, event: GossipsubEvent<M>) -> Seq<
    BehaviourEvent<M, P>,
> {
    match event {
        GossipsubEvent::Message { propagation_source, id, topics, decoded } => match decoded {
            Ok(message) if !seen.contains(id.0@) => seq![
                BehaviourEvent::PubsubMessage { id, source: propagation_source, topics, message },
            ],
            _ => Seq::empty(),
        },
        GossipsubEvent::Subscribed { peer_id, topic } => seq![
            BehaviourEvent::PeerSubscribed(peer_id, topic),
        ],
        GossipsubEvent::Unsubscribed { .. } => Seq::empty(),
    }
}

/// The ids seen, once an event of the gossip protocol has come in.
pub open spec fn seen_after<M>(
    seen: Seq<Seq<char>>,
    capacity: nat,
    event: GossipsubEvent<M>,
) -> Seq<Seq<char>> {
    match event {
        GossipsubEvent::Message { id, .. } => touched(seen, capacity, id.0@),
        _ => seen,
    }
}

/// How many of a peer's listening addresses are kept.
pub open spec fn kept_addresses(listed: nat) -> int {
    if listed > MAX_IDENTIFY_ADDRESSES {
        MAX_IDENTIFY_ADDRESSES as int
    } else {
        listed as int
    }
}

/// Whether `after` is `before` with the list of addresses cut down to those that are kept.
pub open spec fn truncated(before: IdentifyInfo, after: IdentifyInfo) -> bool {
    &&& after.public_key == before.public_key
    &&& after.protocol_version == before.protocol_version
    &&& after.agent_version == before.agent_version
    &&& after.protocols == before.protocols
    &&& after.listen_addrs@ == before.listen_addrs@.take(
        kept_addresses(before.listen_addrs@.len()),
    )
}

/// The effect of an event of the identify protocol: the peer manager learns of a peer that
/// identified itself, with no more than the first addresses.
pub open spec fn identified<M, P, N: Fn(GossipTopic) -> String>(
    before: BehaviourView<M, P, N>,
    event: IdentifyEvent,
    after: BehaviourView<M, P, N>,
) -> bool {
    match event {
        IdentifyEvent::Received { peer_id, info, .. } => exists|kept: IdentifyInfo| #[trigger]
            truncated(info, kept) && after == (BehaviourView {
                commands: before.commands.push(Command::Identify(peer_id, kept)),
                ..before
            }),
        _ => after == before,
    }
}

/// What the behaviour asks for on an event of the peer manager.
pub open spec fn peer_manager_commands<P>(meta_data: MetaData, event: PeerManagerEvent) -> Seq<
    Command<P>,
> {
    match event {
        PeerManagerEvent::Ping(peer_id) => seq![
            Command::SendRpc(peer_id, ping_event(0, meta_data, true)),
        ],
        PeerManagerEvent::MetaData(peer_id) => seq![
            Command::SendRpc(peer_id, meta_data_request()),
        ],
        _ => Seq::empty(),
    }
}

/// What is handed out at once on an event of the peer manager.
pub open spec fn peer_manager_handed_out<M, P>(event: PeerManagerEvent) -> Option<
    BehaviourEvent<M, P>,
> {
    match event {
        PeerManagerEvent::Status(peer_id) => Some(BehaviourEvent::StatusPeer(peer_id)),
        _ => None,
    }
}

} // verus!
