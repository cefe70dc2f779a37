//! The plain values that the behaviour reads, keeps and hands on.

use libp2p::gossipsub::TopicHash;
use libp2p::identity::PublicKey;
use libp2p::{Multiaddr, PeerId};
use vstd::prelude::*;

verus! {

/// Identifies one of the subnets that attestations are spread over.
pub type SubnetId = u64;

/// Ties an RPC response to the request it answers.
pub type RequestId = usize;

/// The fork that the local node follows, as its node record announces it.
#[derive(Clone, Copy, Debug, PartialEq, Eq)]
pub struct EnrForkId {
    /// The digest that every gossip topic of the current fork carries.
    pub fork_digest: [u8; 4],
    /// The version of the next planned fork.
    pub next_fork_version: [u8; 4],
    /// The epoch at which the next planned fork takes place.
    pub next_fork_epoch: u64,
}

/// The attestation subnets that a node is subscribed to, one bit for each subnet.
#[derive(Clone, Copy, Debug, PartialEq, Eq, Structural)]
pub struct EnrBitfield {
    pub bits: u64,
}

/// The meta data of a node. `seq_number` grows each time that `attnets` is read anew, so that a
/// peer that sees the number in a ping knows whether its own copy is out of date.
#[derive(Clone, Copy, Debug, PartialEq, Eq, Structural)]
pub struct MetaData {
    pub seq_number: u64,
    pub attnets: EnrBitfield,
}

/// A node record in its textual form.
#[derive(Debug, PartialEq, Eq)]
pub struct Enr {
    pub text: String,
}

/// The id of a gossip message.
#[derive(Debug, PartialEq, Eq)]
pub struct MessageId(pub String);

/// What a gossip message is about.
#[derive(Clone, Copy, Debug, PartialEq, Eq, Hash, Structural)]
pub enum GossipKind {
    BeaconBlock,
    BeaconAggregateAndProof,
    /// The attestations of one subnet.
    CommitteeIndex(SubnetId),
    VoluntaryExit,
    ProposerSlashing,
    AttesterSlashing,
}

impl GossipKind {
    /// The kind of the messages that are published on a subnet.
    pub fn from_subnet(subnet_id: SubnetId) -> (kind: GossipKind)
        ensures
            kind == GossipKind::CommitteeIndex(subnet_id),
    {
        GossipKind::CommitteeIndex(subnet_id)
    }
}

/// How the content of a gossip message is encoded.
#[derive(Clone, Copy, Debug, PartialEq, Eq, Hash, Structural)]
pub enum GossipEncoding {
    SSZ,
    SSZSnappy,
}

/// The encoding in which the node publishes and subscribes.
pub open spec fn default_encoding() -> GossipEncoding {
    GossipEncoding::SSZSnappy
}

impl Default for GossipEncoding {
    fn default() -> (encoding: GossipEncoding)
        ensures
            encoding == default_encoding(),
    {
        GossipEncoding::SSZSnappy
    }
}

/// A gossip topic: what it is about, how its messages are encoded, and the fork it belongs to.
#[derive(Clone, Copy, Debug, PartialEq, Eq, Hash)]
pub struct GossipTopic {
    pub kind: GossipKind,
    pub encoding: GossipEncoding,
    pub fork_digest: [u8; 4],
}

impl GossipTopic {
    /// The topic of a kind and an encoding on a fork.
    pub fn new(kind: GossipKind, encoding: GossipEncoding, fork_digest: [u8; 4]) -> (topic:
        GossipTopic)
        ensures
            topic == (GossipTopic { kind, encoding, fork_digest }),
    {
        GossipTopic { kind, encoding, fork_digest }
    }

    /// The topic of this kind and encoding on another fork.
    pub open spec fn on_fork(self, fork_digest: [u8; 4]) -> GossipTopic {
        GossipTopic { fork_digest, ..self }
    }

    /// Whether two topics are one and the same.
    pub fn same(&self, other: &GossipTopic) -> (same: bool)
        ensures
            same == (*self == *other),
    {
        let same = self.kind == other.kind && self.encoding == other.encoding
            && self.fork_digest[0] == other.fork_digest[0] && self.fork_digest[1]
            == other.fork_digest[1] && self.fork_digest[2] == other.fork_digest[2]
            && self.fork_digest[3] == other.fork_digest[3];
        assert(same ==> self.fork_digest =~= other.fork_digest);
        same
    }
}

/// A message that is to be published: the kinds it belongs to, and what came of encoding it.
#[derive(Debug, PartialEq, Eq)]
pub struct OutgoingMessage {
    pub kinds: Vec<GossipKind>,
    pub encoded: Result<Vec<u8>, String>,
}

/// What a peer says of itself when it is identified.
#[derive(Debug, PartialEq, Eq)]
pub struct IdentifyInfo {
    pub public_key: PublicKey,
    pub protocol_version: String,
    pub agent_version: String,
    pub listen_addrs: Vec<Multiaddr>,
    pub protocols: Vec<String>,
}

/// An event of the gossip protocol. `M` is the type of a decoded message.
#[derive(Debug, PartialEq, Eq)]
pub enum GossipsubEvent<M> {
    /// A message came in.
    Message {
        /// The peer that sent the message, not the peer that published it.
        propagation_source: PeerId,
        id: MessageId,
        /// The topics that the message was sent on.
        topics: Vec<TopicHash>,
        /// What came of decoding the content of the message for its topics.
        decoded: Result<M, String>,
    },
    /// A peer subscribed to a topic.
    Subscribed { peer_id: PeerId, topic: TopicHash },
    /// A peer unsubscribed from a topic.
    Unsubscribed { peer_id: PeerId, topic: TopicHash },
}

/// An event of the identify protocol.
#[derive(Debug, PartialEq, Eq)]
pub enum IdentifyEvent {
    /// A peer identified itself, and told which address of ours it sees.
    Received { peer_id: PeerId, info: IdentifyInfo, observed_addr: Multiaddr },
    /// We identified ourselves to a peer.
    Sent { peer_id: PeerId },
    /// An attempt to identify a peer failed.
    Error { peer_id: PeerId },
}

/// An event of the discovery protocol. None of them concerns the behaviour.
#[derive(Debug, PartialEq, Eq)]
pub struct DiscoveryEvent;

/// What the peer manager asks for.
#[derive(Debug, PartialEq, Eq)]
pub enum PeerManagerEvent {
    /// A status is to be sent to the peer.
    Status(PeerId),
    /// A ping is to be sent to the peer.
    Ping(PeerId),
    /// The peer is to be asked for its meta data.
    MetaData(PeerId),
    /// The peer is to be disconnected.
    DisconnectPeer(PeerId),
    /// The peer is to be banned.
    BanPeer(PeerId),
}

} // verus!
