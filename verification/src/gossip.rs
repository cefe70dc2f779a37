//! The items of `libp2p` that the behaviour calls or carries, with the contracts that are
//! believed of them.

use libp2p::gossipsub::{Gossipsub, GossipsubConfig, Topic, TopicHash};
use libp2p::identify::Identify;
use libp2p::identity::{Keypair, PublicKey};
use libp2p::swarm::{DialPeerCondition, NotifyHandler};
use libp2p::{Multiaddr, PeerId};
use vstd::prelude::*;

use crate::types::MessageId;

verus! {

/// The gossip protocol of `libp2p`.
#[verifier::external_type_specification]
#[verifier::external_body]
pub struct ExGossipsub(Gossipsub);

/// The parameters that a `Gossipsub` is made with.
#[verifier::external_type_specification]
#[verifier::external_body]
pub struct ExGossipsubConfig(GossipsubConfig);

/// A topic as it travels on the wire.
#[verifier::external_type_specification]
#[verifier::external_body]
pub struct ExTopicHash(TopicHash);

/// The identify protocol of `libp2p`.
#[verifier::external_type_specification]
#[verifier::external_body]
pub struct ExIdentify(Identify);

/// The key pair of a node.
#[verifier::external_type_specification]
#[verifier::external_body]
pub struct ExKeypair(Keypair);

/// The public key of a node.
#[verifier::external_type_specification]
#[verifier::external_body]
pub struct ExPublicKey(PublicKey);

/// The identifier of a peer.
#[verifier::external_type_specification]
#[verifier::external_body]
pub struct ExPeerId(PeerId);

/// A network address.
#[verifier::external_type_specification]
#[verifier::external_body]
pub struct ExMultiaddr(Multiaddr);

/// When a peer is to be dialled.
#[verifier::external_type_specification]
#[verifier::external_body]
pub struct ExDialPeerCondition(DialPeerCondition);

/// Which of a peer's connections an event is for.
#[verifier::external_type_specification]
#[verifier::external_body]
pub struct ExNotifyHandler(NotifyHandler);

/// The parameters of a `GossipsubConfig` that the contracts below depend on.
#[derive(Clone, Copy, Debug, PartialEq, Eq, Structural)]
pub struct GossipSettings {
    /// The number of heartbeats that published messages are kept for.
    pub history_length: usize,
    /// The number of peers that a topic is shared with.
    pub mesh_n: usize,
    /// Whether topics are known by their hash rather than by their name.
    pub hash_topics: bool,
    /// Whether messages are published without naming the local node.
    pub no_source_id: bool,
    /// The delay before the first heartbeat, in whole seconds.
    pub heartbeat_initial_delay: u64,
}

impl GossipSettings {
    /// Whether a `Gossipsub` can be made with these parameters: its history has to fit into
    /// memory (an entry takes at most 24 bytes), and the first heartbeat has to fall on a time
    /// that the clock can tell.
    pub open spec fn usable(self) -> bool {
        &&& self.history_length * 24 <= isize::MAX
        &&& self.heartbeat_initial_delay <= u32::MAX
    }

    /// Tells whether a `Gossipsub` can be made with these parameters.
    pub fn is_usable(&self) -> (usable: bool)
        ensures
            usable == self.usable(),
    {
        self.history_length <= isize::MAX as usize / 24 && self.heartbeat_initial_delay
            <= u32::MAX as u64
    }
}

/// The parameters that a configuration holds.
pub uninterp spec fn config_settings(config: GossipsubConfig) -> GossipSettings;

/// The configuration that a `Gossipsub` was made with.
pub uninterp spec fn gossip_config(gossipsub: Gossipsub) -> GossipsubConfig;

/// The parameters that a `Gossipsub` was made with.
pub open spec fn gossip_settings(gossipsub: Gossipsub) -> GossipSettings {
    config_settings(gossip_config(gossipsub))
}

/// The peer in whose name a `Gossipsub` publishes.
pub uninterp spec fn gossip_source(gossipsub: Gossipsub) -> PeerId;

/// The topics that a `Gossipsub` is subscribed to, each by the text of its `TopicHash`.
pub uninterp spec fn joined_topics(gossipsub: Gossipsub) -> Set<Seq<char>>;

/// The ids of the messages that are waiting in the cache of a `Gossipsub`.
pub uninterp spec fn cached_messages(gossipsub: Gossipsub) -> Set<Seq<char>>;

/// The text of the `TopicHash` that `Topic::sha256_hash` makes of the topic of this name.
pub uninterp spec fn topic_sha256(name: Seq<char>) -> Seq<char>;

/// Whether a `Gossipsub` can be left in the state `after` when it is told once, in the state
/// `before`, to subscribe to the topic called `name`.
pub uninterp spec fn joined_by(before: Gossipsub, name: Seq<char>, after: Gossipsub) -> bool;

/// Whether a `Gossipsub` can be left in the state `after` when it is told once, in the state
/// `before`, to unsubscribe from the topic called `name`.
pub uninterp spec fn left_by(before: Gossipsub, name: Seq<char>, after: Gossipsub) -> bool;

/// Whether a `Gossipsub` can be left in the state `after` when it is handed `data` to publish on
/// the topic called `name` in the state `before`.
pub uninterp spec fn published(
    before: Gossipsub,
    name: Seq<char>,
    data: Seq<u8>,
    after: Gossipsub,
) -> bool;

/// Whether a `Gossipsub` can be left in the state `after` when it is told in the state `before` to
/// propagate the message with this id, which came from `source`.
pub uninterp spec fn propagated(
    before: Gossipsub,
    id: Seq<char>,
    source: PeerId,
    after: Gossipsub,
) -> bool;

/// The public half of a key pair.
pub uninterp spec fn keypair_public(keypair: Keypair) -> PublicKey;

/// The identifier of the peer with this public key.
pub uninterp spec fn public_key_peer_id(key: PublicKey) -> PeerId;

/// The protocol version that an `Identify` sends to other peers.
pub uninterp spec fn identify_protocol_version(identify: Identify) -> Seq<char>;

/// The agent version that an `Identify` sends to other peers.
pub uninterp spec fn identify_agent_version(identify: Identify) -> Seq<char>;

/// The public key that an `Identify` sends to other peers.
pub uninterp spec fn identify_public_key(identify: Identify) -> PublicKey;

/// The text by which a `Gossipsub` with these parameters knows the topic of this name.
pub open spec fn topic_key(settings: GossipSettings, name: Seq<char>) -> Seq<char> {
    if settings.hash_topics {
        topic_sha256(name)
    } else {
        name
    }
}

/// `PeerId::clone`: the copy is the same identifier.
pub assume_specification[ <PeerId as Clone>::clone ](peer_id: &PeerId) -> (copy: PeerId)
    ensures
        copy == *peer_id,
;

/// Reads the public fields of a `GossipsubConfig`; of the delay of the first heartbeat,
/// `Duration::as_secs` gives the whole seconds.
#[verifier::external_body]
fn read_settings(config: &GossipsubConfig) -> (settings: GossipSettings)
    ensures
        settings == config_settings(*config),
{
    GossipSettings {
        history_length: config.history_length,
        mesh_n: config.mesh_n,
        hash_topics: config.hash_topics,
        no_source_id: config.no_source_id,
        heartbeat_initial_delay: config.heartbeat_initial_delay.as_secs(),
    }
}

/// The parameters that a configuration holds.
pub fn settings_of(config: &GossipsubConfig) -> (settings: GossipSettings)
    ensures
        settings == config_settings(*config),
{
    read_settings(config)
}

/// `Keypair::public`: depends on the key pair alone.
#[verifier::external_body]
pub(crate) fn public_key(keypair: &Keypair) -> (key: PublicKey)
    ensures
        key == keypair_public(*keypair),
{
    keypair.public()
}

/// `PublicKey::into_peer_id`: depends on the key alone.
#[verifier::external_body]
pub(crate) fn peer_id_of(key: PublicKey) -> (peer_id: PeerId)
    ensures
        peer_id == public_key_peer_id(key),
{
    key.into_peer_id()
}

/// `Identify::new`: keeps what it is given, to be sent to other peers.
#[verifier::external_body]
pub(crate) fn new_identify(
    protocol_version: String,
    agent_version: String,
    local_public_key: PublicKey,
) -> (identify: Identify)
    ensures
        identify_protocol_version(identify) == protocol_version@,
        identify_agent_version(identify) == agent_version@,
        identify_public_key(identify) == local_public_key,
{
    Identify::new(protocol_version, agent_version, local_public_key)
}

/// `Gossipsub::new`: the new instance keeps the configuration, is subscribed to nothing, has no
/// message in its cache, and publishes in the name of the local peer unless the parameters say
/// that no source is to be named.
#[verifier::external_body]
pub(crate) fn new_gossipsub(local_peer_id: PeerId, config: GossipsubConfig) -> (gossipsub:
    Gossipsub)
    requires
        config_settings(config).usable(),
    ensures
        gossip_config(gossipsub) == config,
        joined_topics(gossipsub) == Set::<Seq<char>>::empty(),
        cached_messages(gossipsub) == Set::<Seq<char>>::empty(),
        !config_settings(config).no_source_id ==> gossip_source(gossipsub) == local_peer_id,
{
    Gossipsub::new(local_peer_id, config)
}

/// `Gossipsub::subscribe`: answers whether the topic was not subscribed to before, and
/// subscribes to it. With `mesh_n` at zero the topic may be left out of the mesh, and is then not
/// counted as subscribed to. Which peers it is shared with is chosen by chance, so of that no more
/// is said than what the call was handed.
#[verifier::external_body]
pub(crate) fn join_topic(gossipsub: &mut Gossipsub, name: String) -> (fresh: bool)
    ensures
        gossip_config(*final(gossipsub)) == gossip_config(*old(gossipsub)),
        gossip_source(*final(gossipsub)) == gossip_source(*old(gossipsub)),
        cached_messages(*final(gossipsub)) == cached_messages(*old(gossipsub)),
        fresh == !joined_topics(*old(gossipsub)).contains(
            if gossip_settings(*old(gossipsub)).hash_topics {
                topic_sha256(name@)
            } else {
                name@
            },
        ),
        joined_topics(*final(gossipsub)) == joined_topics(*old(gossipsub)).insert(
            topic_key(gossip_settings(*old(gossipsub)), name@),
        ) || (gossip_settings(*old(gossipsub)).mesh_n == 0 && joined_topics(*final(gossipsub))
            == joined_topics(*old(gossipsub))),
        joined_by(*old(gossipsub), name@, *final(gossipsub)),
{
    gossipsub.subscribe(Topic::new(name))
}

/// `Gossipsub::unsubscribe`: answers whether the topic was subscribed to, and drops it. Of what is
/// queued for other peers no more is said than what the call was handed.
#[verifier::external_body]
pub(crate) fn leave_topic(gossipsub: &mut Gossipsub, name: String) -> (was_joined: bool)
    ensures
        gossip_config(*final(gossipsub)) == gossip_config(*old(gossipsub)),
        gossip_source(*final(gossipsub)) == gossip_source(*old(gossipsub)),
        cached_messages(*final(gossipsub)) == cached_messages(*old(gossipsub)),
        was_joined == joined_topics(*old(gossipsub)).contains(
            topic_key(gossip_settings(*old(gossipsub)), name@),
        ),
        joined_topics(*final(gossipsub)) == joined_topics(*old(gossipsub)).remove(
            topic_key(gossip_settings(*old(gossipsub)), name@),
        ),
        left_by(*old(gossipsub), name@, *final(gossipsub)),
{
    gossipsub.unsubscribe(Topic::new(name))
}

/// `Gossipsub::publish`: queues the message for peers that it chooses by chance, under a random
/// sequence number, and puts it into the cache. So of the state that it leaves no more is said than
/// what it was handed, that the subscriptions stand, and that the cache has gained one id at most.
/// It panics where the history has no entry to keep the message in. The function of the
/// configuration that gives messages their ids is taken to return.
#[verifier::external_body]
pub(crate) fn publish_on(gossipsub: &mut Gossipsub, name: String, data: &Vec<u8>)
    requires
        gossip_settings(*old(gossipsub)).history_length > 0,
    ensures
        gossip_config(*final(gossipsub)) == gossip_config(*old(gossipsub)),
        gossip_source(*final(gossipsub)) == gossip_source(*old(gossipsub)),
        joined_topics(*final(gossipsub)) == joined_topics(*old(gossipsub)),
        exists|id: Seq<char>|
            cached_messages(*final(gossipsub)) == #[trigger] cached_messages(
                *old(gossipsub),
            ).insert(id),
        published(*old(gossipsub), name@, data@, *final(gossipsub)),
{
    gossipsub.publish(&Topic::new(name), data.clone())
}

/// `Gossipsub::propagate_message`: if the message is still in the cache, forwards it to the mesh
/// peers, except to the one that it came from; otherwise leaves everything as it is. The answer is
/// whether the message was in the cache. Which peers are in the mesh is not stated. The function
/// of the configuration that gives messages their ids is taken to return.
#[verifier::external_body]
pub(crate) fn forward_message(gossipsub: &mut Gossipsub, id: MessageId, source: &PeerId) -> (forwarded:
    bool)
    ensures
        forwarded == cached_messages(*old(gossipsub)).contains(id.0@),
        !forwarded ==> *final(gossipsub) == *old(gossipsub),
        gossip_config(*final(gossipsub)) == gossip_config(*old(gossipsub)),
        gossip_source(*final(gossipsub)) == gossip_source(*old(gossipsub)),
        joined_topics(*final(gossipsub)) == joined_topics(*old(gossipsub)),
        cached_messages(*final(gossipsub)) == cached_messages(*old(gossipsub)),
        propagated(*old(gossipsub), id.0@, *source, *final(gossipsub)),
{
    gossipsub.propagate_message(&libp2p::gossipsub::MessageId(id.0), source)
}

} // verus!
