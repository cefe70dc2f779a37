use eth2_behaviour::behaviour::Behaviour;
use eth2_behaviour::types::{
    EnrBitfield, EnrForkId, GossipKind, GossipTopic, OutgoingMessage,
};
use futures::future::{select, Either};
use libp2p::gossipsub::protocol::{GossipsubSubscription, GossipsubSubscriptionAction};
use libp2p::gossipsub::{GossipsubConfig, GossipsubConfigBuilder, GossipsubRpc, TopicHash};
use libp2p::identify::{Identify, IdentifyEvent};
use libp2p::identity::Keypair;
use libp2p::swarm::{NetworkBehaviour, NetworkBehaviourAction, PollParameters, SwarmEvent};
use libp2p::{Multiaddr, PeerId, Swarm, Transport};
use std::task::{Context, Poll};

type TestBehaviour = Behaviour<String, u32, fn(GossipTopic) -> String>;

fn topic_name(topic: GossipTopic) -> String {
    format!("{:?}", topic)
}

fn behaviour(key: &Keypair, config: GossipsubConfig) -> TestBehaviour {
    let fork = EnrForkId { fork_digest: [0; 4], next_fork_version: [0; 4], next_fork_epoch: 0 };
    Behaviour::new(
        key,
        config,
        "agent/v7".to_string(),
        fork,
        EnrBitfield { bits: 0 },
        Vec::new(),
        topic_name as fn(GossipTopic) -> String,
    )
}

struct NoParameters(PeerId);

impl PollParameters for NoParameters {
    type SupportedProtocolsIter = std::vec::IntoIter<Vec<u8>>;
    type ListenedAddressesIter = std::vec::IntoIter<Multiaddr>;
    type ExternalAddressesIter = std::vec::IntoIter<Multiaddr>;

    fn supported_protocols(&self) -> Self::SupportedProtocolsIter {
        Vec::new().into_iter()
    }

    fn listened_addresses(&self) -> Self::ListenedAddressesIter {
        Vec::new().into_iter()
    }

    fn external_addresses(&self) -> Self::ExternalAddressesIter {
        Vec::new().into_iter()
    }

    fn local_peer_id(&self) -> &PeerId {
        &self.0
    }
}

/// Publishes to a peer, and returns in whose name the message goes out.
fn source_of_published(mut behaviour: TestBehaviour) -> PeerId {
    let fork_digest = behaviour.enr_fork_id().fork_digest;
    let peer = PeerId::random();
    let topic = GossipTopic::new(GossipKind::BeaconBlock, Default::default(), fork_digest);
    behaviour.gossipsub_mut().inject_connected(&peer);
    behaviour.gossipsub_mut().inject_event(
        peer,
        libp2p::core::connection::ConnectionId::new(1),
        GossipsubRpc {
            messages: Vec::new(),
            subscriptions: vec![GossipsubSubscription {
                action: GossipsubSubscriptionAction::Subscribe,
                topic_hash: TopicHash::from_raw(topic_name(topic)),
            }],
            control_msgs: Vec::new(),
        },
    );
    behaviour.publish(vec![OutgoingMessage {
        kinds: vec![GossipKind::BeaconBlock],
        encoded: Ok(vec![1]),
    }]);
    let waker = futures::task::noop_waker();
    let mut context = Context::from_waker(&waker);
    let mut parameters = NoParameters(PeerId::random());
    while let Poll::Ready(action) = behaviour.gossipsub_mut().poll(&mut context, &mut parameters) {
        if let NetworkBehaviourAction::NotifyHandler { event, .. } = action {
            if let Some(message) = event.messages.first() {
                return message.source.clone();
            }
        }
    }
    panic!("nothing was published")
}

#[test]
fn messages_are_published_in_the_name_of_the_local_node() {
    let key = Keypair::generate_ed25519();
    let local = key.public().into_peer_id();
    assert_eq!(source_of_published(behaviour(&key, GossipsubConfig::default())), local);
    let nameless = GossipsubConfigBuilder::new().no_source_id().build();
    assert_ne!(source_of_published(behaviour(&key, nameless)), local);
}

/// A swarm that runs an identify protocol over memory channels to one other peer.
fn swarm(identify: Identify, local: PeerId, remote: PeerId) -> Swarm<Identify> {
    let transport = libp2p::core::transport::MemoryTransport::default().map(move |socket, point| {
        let muxer =
            libp2p::core::muxing::SingletonMuxer::new(socket, point.to_endpoint());
        (remote, muxer)
    });
    Swarm::new(transport, identify, local)
}

#[test]
fn the_local_node_identifies_itself() {
    let key = Keypair::generate_ed25519();
    let other = Keypair::generate_ed25519();
    let (local, remote) = (key.public().into_peer_id(), other.public().into_peer_id());
    let stand_in = Identify::new("x".to_string(), "y".to_string(), other.public());
    let mut node = behaviour(&key, GossipsubConfig::default());
    let identify = std::mem::replace(node.identify_mut(), stand_in);
    let asking = Identify::new("x".to_string(), "y".to_string(), other.public());

    let mut listener = swarm(identify, local.clone(), remote.clone());
    let mut dialer = swarm(asking, remote, local);
    Swarm::listen_on(&mut listener, "/memory/0".parse().unwrap()).unwrap();
    let info = futures::executor::block_on(async move {
        let address = loop {
            if let SwarmEvent::NewListenAddr(address) = listener.next_event().await {
                break address;
            }
        };
        Swarm::dial_addr(&mut dialer, address).unwrap();
        loop {
            let heard = {
                let (left, right) = (Box::pin(listener.next()), Box::pin(dialer.next()));
                match select(left, right).await {
                    Either::Left(_) => None,
                    Either::Right((event, _)) => Some(event),
                }
            };
            if let Some(IdentifyEvent::Received { info, .. }) = heard {
                break info;
            }
        }
    });
    assert_eq!(info.protocol_version, "lighthouse/libp2p");
    assert_eq!(info.agent_version, "agent/v7");
    assert_eq!(info.public_key, key.public());
}
