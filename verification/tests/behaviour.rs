use eth2_behaviour::behaviour::Behaviour;
use eth2_behaviour::gossip::settings_of;
use eth2_behaviour::model::{BehaviourEvent, Command};
use eth2_behaviour::rpc::{
    Ping, Protocol, RPCCodedResponse, RPCEvent, RPCMessage, RPCRequest, RPCResponse,
};
use eth2_behaviour::swarm::{
    addresses_of_peer, inject_event, AddressRequest, BehaviourHandlerIn, BehaviourHandlerOut,
    DelegateIn, DelegateOut, PartPolled, PollStep, Polled, Stage, SwarmAction, SwarmRequest,
};
use eth2_behaviour::types::{
    DiscoveryEvent, Enr, EnrBitfield, EnrForkId, GossipEncoding, GossipKind, GossipTopic,
    GossipsubEvent, IdentifyEvent, IdentifyInfo, MessageId, MetaData, OutgoingMessage,
    PeerManagerEvent,
};
use libp2p::gossipsub::protocol::{GossipsubSubscription, GossipsubSubscriptionAction};
use libp2p::gossipsub::{
    GossipsubConfig, GossipsubConfigBuilder, GossipsubMessage, GossipsubRpc, TopicHash,
};
use libp2p::identity::Keypair;
use libp2p::swarm::{
    DialPeerCondition, NetworkBehaviour, NetworkBehaviourAction, NotifyHandler, PollParameters,
};
use libp2p::{Multiaddr, PeerId};
use std::sync::Arc;
use std::task::{Context, Poll};

type TestBehaviour = Behaviour<String, u32, fn(GossipTopic) -> String>;
type TestStep = PollStep<String, u32, u8, u16, u32, u64>;

fn topic_name(topic: GossipTopic) -> String {
    format!("/{:?}/{:?}/{:?}", topic.fork_digest, topic.kind, topic.encoding)
}

/// Names that tell only the kinds apart.
fn kind_name(topic: GossipTopic) -> String {
    format!("{:?}", topic.kind)
}

fn fork(digest: u8) -> EnrForkId {
    EnrForkId {
        fork_digest: [digest, 1, 2, 3],
        next_fork_version: [9, 9, 9, 9],
        next_fork_epoch: 77,
    }
}

fn with_config(config: GossipsubConfig, name: fn(GossipTopic) -> String) -> TestBehaviour {
    assert!(settings_of(&config).is_usable());
    Behaviour::new(
        &Keypair::generate_ed25519(),
        config,
        "agent/v1".to_string(),
        fork(0),
        EnrBitfield { bits: 5 },
        Vec::new(),
        name,
    )
}

fn behaviour() -> TestBehaviour {
    with_config(GossipsubConfig::default(), topic_name)
}

fn commands(behaviour: &mut TestBehaviour) -> Vec<Command<u32>> {
    let mut all = Vec::new();
    while let Some(command) = behaviour.next_command() {
        all.push(command);
    }
    all
}

fn events(behaviour: &mut TestBehaviour) -> Vec<BehaviourEvent<String, u32>> {
    let mut all = Vec::new();
    while let Some(event) = behaviour.next_event() {
        all.push(event);
    }
    all
}

fn topic(kind: GossipKind, digest: u8) -> GossipTopic {
    GossipTopic::new(kind, GossipEncoding::default(), [digest, 1, 2, 3])
}

fn gossip(id: &str, source: &PeerId, decoded: Result<&str, &str>) -> GossipsubEvent<String> {
    GossipsubEvent::Message {
        propagation_source: source.clone(),
        id: MessageId(id.to_string()),
        topics: vec![TopicHash::from_raw("t")],
        decoded: decoded.map(|m| m.to_string()).map_err(|e| e.to_string()),
    }
}

fn address(port: u16) -> Multiaddr {
    format!("/ip4/127.0.0.1/tcp/{}", port).parse().unwrap()
}

#[test]
fn new_behaviour_is_empty() {
    let mut behaviour = behaviour();
    assert_eq!(
        behaviour.meta_data(),
        MetaData { seq_number: 1, attnets: EnrBitfield { bits: 5 } }
    );
    assert_eq!(behaviour.enr_fork_id(), fork(0));
    assert!(behaviour.gossipsub_subscriptions().is_empty());
    assert_eq!(behaviour.settings().mesh_n, 6);
    assert_eq!(behaviour.settings().history_length, 5);
    assert!(!behaviour.settings().hash_topics);
    assert!(!behaviour.settings().no_source_id);
    assert_eq!(behaviour.settings().heartbeat_initial_delay, 5);
    assert!(events(&mut behaviour).is_empty());
    assert!(commands(&mut behaviour).is_empty());
    let _ = behaviour.gs();
}

#[test]
fn subscribing_tells_whether_the_topic_is_new() {
    let mut behaviour = behaviour();
    assert!(behaviour.subscribe_kind(GossipKind::BeaconBlock));
    assert!(!behaviour.subscribe_kind(GossipKind::BeaconBlock));
    assert!(behaviour.subscribe_to_subnet(3));
    assert!(!behaviour.subscribe_kind(GossipKind::CommitteeIndex(3)));
    assert_eq!(
        *behaviour.gossipsub_subscriptions(),
        vec![topic(GossipKind::BeaconBlock, 0), topic(GossipKind::CommitteeIndex(3), 0)]
    );
}

#[test]
fn unsubscribing_tells_whether_the_topic_was_joined() {
    let mut behaviour = behaviour();
    assert!(!behaviour.unsubscribe_kind(GossipKind::VoluntaryExit));
    assert!(behaviour.subscribe_kind(GossipKind::VoluntaryExit));
    assert!(behaviour.subscribe_to_subnet(1));
    assert!(behaviour.unsubscribe_kind(GossipKind::VoluntaryExit));
    assert!(!behaviour.unsubscribe_kind(GossipKind::VoluntaryExit));
    assert!(!behaviour.unsubscribe_from_subnet(2));
    assert!(behaviour.unsubscribe_from_subnet(1));
    assert!(behaviour.gossipsub_subscriptions().is_empty());
    assert!(behaviour.subscribe_kind(GossipKind::VoluntaryExit));
}

#[test]
fn subscriptions_are_told_apart_when_topics_are_hashed() {
    let config = GossipsubConfigBuilder::new().hash_topics().build();
    let mut behaviour = with_config(config, topic_name);
    assert!(behaviour.settings().hash_topics);
    assert!(behaviour.subscribe_kind(GossipKind::BeaconBlock));
    assert!(behaviour.subscribe_kind(GossipKind::AttesterSlashing));
    assert!(!behaviour.subscribe_kind(GossipKind::BeaconBlock));
    assert!(behaviour.unsubscribe_kind(GossipKind::BeaconBlock));
    assert!(!behaviour.unsubscribe_kind(GossipKind::BeaconBlock));
    assert!(behaviour.unsubscribe_kind(GossipKind::AttesterSlashing));
}

#[test]
fn a_mesh_of_no_peers_joins_nothing() {
    let config = GossipsubConfigBuilder::new().mesh_n_low(0).mesh_n(0).build();
    let mut behaviour = with_config(config, topic_name);
    assert!(behaviour.subscribe_kind(GossipKind::BeaconBlock));
    assert!(behaviour.subscribe_kind(GossipKind::BeaconBlock));
    assert!(!behaviour.unsubscribe_kind(GossipKind::BeaconBlock));
    assert!(behaviour.gossipsub_subscriptions().is_empty());
}

#[test]
fn topics_of_one_name_leave_together() {
    let mut behaviour = with_config(GossipsubConfig::default(), kind_name);
    behaviour.load_subscriptions(&vec![topic(GossipKind::BeaconBlock, 9)]);
    assert!(behaviour.subscribe_kind(GossipKind::BeaconBlock));
    assert!(behaviour.unsubscribe_kind(GossipKind::BeaconBlock));
    assert_eq!(*behaviour.gossipsub_subscriptions(), vec![topic(GossipKind::BeaconBlock, 9)]);
    assert!(!behaviour.unsubscribe_kind(GossipKind::BeaconBlock));
}

#[test]
fn fork_update_moves_all_subscriptions() {
    let mut behaviour = behaviour();
    behaviour.subscribe_kind(GossipKind::BeaconBlock);
    behaviour.subscribe_to_subnet(7);
    behaviour.update_fork_version(fork(8));
    assert_eq!(behaviour.enr_fork_id(), fork(8));
    assert_eq!(
        *behaviour.gossipsub_subscriptions(),
        vec![topic(GossipKind::BeaconBlock, 8), topic(GossipKind::CommitteeIndex(7), 8)]
    );
    assert_eq!(commands(&mut behaviour), vec![Command::UpdateEth2Enr(fork(8))]);
    // the gossip protocol has joined the topics of the new fork ...
    assert!(!behaviour.subscribe_kind(GossipKind::BeaconBlock));
    assert!(!behaviour.subscribe_to_subnet(7));
    // ... and left those of the old one
    behaviour.unsubscribe_kind(GossipKind::BeaconBlock);
    behaviour.unsubscribe_from_subnet(7);
    behaviour.update_fork_version(fork(0));
    assert!(!behaviour.unsubscribe_kind(GossipKind::BeaconBlock));
    assert!(!behaviour.unsubscribe_from_subnet(7));
}

#[test]
fn fork_update_to_the_same_fork_changes_nothing() {
    let mut behaviour = behaviour();
    behaviour.subscribe_kind(GossipKind::ProposerSlashing);
    behaviour.subscribe_to_subnet(1);
    behaviour.update_fork_version(fork(4));
    let before = behaviour.gossipsub_subscriptions().clone();
    behaviour.update_fork_version(fork(4));
    assert_eq!(*behaviour.gossipsub_subscriptions(), before);
    assert!(behaviour.unsubscribe_kind(GossipKind::ProposerSlashing));
}

#[test]
fn fork_update_with_names_that_do_not_tell_forks_apart() {
    let mut behaviour = with_config(GossipsubConfig::default(), kind_name);
    behaviour.subscribe_kind(GossipKind::BeaconBlock);
    behaviour.update_fork_version(fork(4));
    assert!(!behaviour.subscribe_kind(GossipKind::BeaconBlock));
    assert!(behaviour.unsubscribe_kind(GossipKind::BeaconBlock));
}

#[test]
fn fork_update_moves_the_topics_that_were_there_at_first() {
    let shared = vec![
        topic(GossipKind::BeaconBlock, 0),
        topic(GossipKind::VoluntaryExit, 3),
        topic(GossipKind::BeaconBlock, 0),
    ];
    let mut behaviour: TestBehaviour = Behaviour::new(
        &Keypair::generate_ed25519(),
        GossipsubConfig::default(),
        "agent/v1".to_string(),
        fork(0),
        EnrBitfield { bits: 5 },
        shared,
        topic_name,
    );
    assert_eq!(
        *behaviour.gossipsub_subscriptions(),
        vec![topic(GossipKind::BeaconBlock, 0), topic(GossipKind::VoluntaryExit, 3)]
    );
    behaviour.update_fork_version(fork(8));
    assert_eq!(
        *behaviour.gossipsub_subscriptions(),
        vec![topic(GossipKind::BeaconBlock, 8), topic(GossipKind::VoluntaryExit, 8)]
    );
    assert!(!behaviour.subscribe_kind(GossipKind::VoluntaryExit));
}

#[test]
fn fork_update_joins_topics_that_fall_together_once() {
    let mut behaviour = behaviour();
    behaviour.load_subscriptions(&vec![
        topic(GossipKind::BeaconBlock, 1),
        topic(GossipKind::BeaconBlock, 2),
    ]);
    behaviour.update_fork_version(fork(8));
    assert_eq!(*behaviour.gossipsub_subscriptions(), vec![topic(GossipKind::BeaconBlock, 8)]);
    assert!(behaviour.unsubscribe_kind(GossipKind::BeaconBlock));
}

#[test]
fn loaded_subscriptions_replace_the_list() {
    let mut behaviour = behaviour();
    behaviour.subscribe_kind(GossipKind::BeaconBlock);
    let exit = topic(GossipKind::VoluntaryExit, 0);
    behaviour.load_subscriptions(&vec![exit, exit]);
    assert_eq!(*behaviour.gossipsub_subscriptions(), vec![exit]);
    // the gossip protocol is left alone
    assert!(!behaviour.subscribe_kind(GossipKind::BeaconBlock));
    assert!(behaviour.subscribe_kind(GossipKind::VoluntaryExit));
}

#[test]
fn subscribing_tells_peers_once() {
    let mut behaviour = behaviour();
    let peer = PeerId::random();
    let block = topic_name(topic(GossipKind::BeaconBlock, 0));
    peer_subscribes(&mut behaviour, &peer, &block);
    announced(&mut behaviour);
    behaviour.subscribe_kind(GossipKind::BeaconBlock);
    assert_eq!(announced(&mut behaviour), vec![(block.clone(), true)]);
    behaviour.unsubscribe_kind(GossipKind::BeaconBlock);
    assert_eq!(announced(&mut behaviour), vec![(block, false)]);
}

#[test]
fn subscribe_then_unsubscribe_restores() {
    let mut behaviour = behaviour();
    behaviour.subscribe_to_subnet(1);
    let before = behaviour.gossipsub_subscriptions().clone();
    assert!(behaviour.subscribe_to_subnet(2));
    assert!(behaviour.unsubscribe_from_subnet(2));
    assert_eq!(*behaviour.gossipsub_subscriptions(), before);
    assert!(!behaviour.subscribe_to_subnet(1));
}

struct NoParameters(PeerId);

impl PollParameters for NoParameters {
    type SupportedProtocolsIter = std::vec::IntoIter<Vec<u8>>;
    type ListenedAddressesIter = std::vec::IntoIter<Multiaddr>;
    type ExternalAddressesIter = std::vec::IntoIter<Multiaddr>;

    fn supported_protocols(&self) -> Self::SupportedProtocolsIter {
        Vec::new().into_iter()
    }

    fn listened_addresses(&self) -> Self::ListenedAddressesIter {
        Vec::new().into_iter()
    }

    fn external_addresses(&self) -> Self::ExternalAddressesIter {
        Vec::new().into_iter()
    }

    fn local_peer_id(&self) -> &PeerId {
        &self.0
    }
}

/// Lets a peer subscribe to a topic, as the gossip protocol learns it from the network.
fn peer_subscribes(behaviour: &mut TestBehaviour, peer: &PeerId, name: &str) {
    let rpc = GossipsubRpc {
        messages: Vec::new(),
        subscriptions: vec![GossipsubSubscription {
            action: GossipsubSubscriptionAction::Subscribe,
            topic_hash: TopicHash::from_raw(name),
        }],
        control_msgs: Vec::new(),
    };
    behaviour.gossipsub_mut().inject_connected(peer);
    behaviour
        .gossipsub_mut()
        .inject_event(peer.clone(), libp2p::core::connection::ConnectionId::new(1), rpc);
}

/// The data that the gossip protocol has queued for peers, with the topics.
fn queued(behaviour: &mut TestBehaviour) -> Vec<(String, Vec<u8>)> {
    let waker = futures::task::noop_waker();
    let mut context = Context::from_waker(&waker);
    let mut parameters = NoParameters(PeerId::random());
    let mut all = Vec::new();
    while let Poll::Ready(action) =
        behaviour.gossipsub_mut().poll(&mut context, &mut parameters)
    {
        if let NetworkBehaviourAction::NotifyHandler { event, .. } = action {
            for message in &event.messages {
                for topic in &message.topics {
                    all.push((topic.clone().into_string(), message.data.clone()));
                }
            }
        }
    }
    all
}

/// The subscriptions that the gossip protocol has queued for peers, and whether they begin or end.
fn announced(behaviour: &mut TestBehaviour) -> Vec<(String, bool)> {
    let waker = futures::task::noop_waker();
    let mut context = Context::from_waker(&waker);
    let mut parameters = NoParameters(PeerId::random());
    let mut all = Vec::new();
    while let Poll::Ready(action) =
        behaviour.gossipsub_mut().poll(&mut context, &mut parameters)
    {
        if let NetworkBehaviourAction::NotifyHandler { event, .. } = action {
            for subscription in &event.subscriptions {
                all.push((
                    subscription.topic_hash.clone().into_string(),
                    subscription.action == GossipsubSubscriptionAction::Subscribe,
                ));
            }
        }
    }
    all
}

#[test]
fn nothing_is_published_without_a_history() {
    let config = GossipsubConfigBuilder::new().history_gossip(0).history_length(0).build();
    let mut behaviour = with_config(config, topic_name);
    let nothing = vec![
        OutgoingMessage { kinds: vec![], encoded: Ok(vec![1]) },
        OutgoingMessage { kinds: vec![GossipKind::BeaconBlock], encoded: Err("e".to_string()) },
    ];
    let something = vec![OutgoingMessage {
        kinds: vec![GossipKind::BeaconBlock],
        encoded: Ok(vec![1]),
    }];
    assert!(behaviour.can_publish(&nothing));
    assert!(behaviour.can_publish(&vec![]));
    assert!(!behaviour.can_publish(&something));
    behaviour.publish(vec![]);
    behaviour.publish(nothing);
    assert!(queued(&mut behaviour).is_empty());
    assert!(self::behaviour().can_publish(&something));
}

#[test]
fn publish_hands_each_topic_and_skips_what_is_not_encoded() {
    let mut behaviour = behaviour();
    let peer = PeerId::random();
    let block = topic_name(topic(GossipKind::BeaconBlock, 0));
    let exit = topic_name(topic(GossipKind::VoluntaryExit, 0));
    behaviour.subscribe_kind(GossipKind::BeaconBlock);
    peer_subscribes(&mut behaviour, &peer, &block);
    peer_subscribes(&mut behaviour, &peer, &exit);
    queued(&mut behaviour);
    behaviour.publish(vec![
        OutgoingMessage {
            kinds: vec![GossipKind::VoluntaryExit, GossipKind::VoluntaryExit],
            encoded: Ok(vec![1, 2]),
        },
        OutgoingMessage {
            kinds: vec![GossipKind::VoluntaryExit],
            encoded: Err("too large".to_string()),
        },
        OutgoingMessage { kinds: vec![], encoded: Ok(vec![3]) },
        OutgoingMessage { kinds: vec![GossipKind::VoluntaryExit], encoded: Ok(vec![4]) },
    ]);
    assert_eq!(
        queued(&mut behaviour),
        vec![(exit.clone(), vec![1, 2]), (exit.clone(), vec![1, 2]), (exit, vec![4])]
    );
    assert_eq!(*behaviour.gossipsub_subscriptions(), vec![topic(GossipKind::BeaconBlock, 0)]);
}

#[test]
fn publish_uses_the_current_fork() {
    let mut behaviour = behaviour();
    let peer = PeerId::random();
    behaviour.update_fork_version(fork(6));
    let exit = topic_name(topic(GossipKind::VoluntaryExit, 6));
    peer_subscribes(&mut behaviour, &peer, &exit);
    queued(&mut behaviour);
    behaviour.publish(vec![OutgoingMessage {
        kinds: vec![GossipKind::VoluntaryExit],
        encoded: Ok(vec![9]),
    }]);
    assert_eq!(queued(&mut behaviour), vec![(exit, vec![9])]);
}

fn fixed_id(_: &GossipsubMessage) -> libp2p::gossipsub::MessageId {
    libp2p::gossipsub::MessageId("fixed".to_string())
}

#[test]
fn propagate_forwards_only_a_known_message_and_not_to_its_source() {
    let config = GossipsubConfigBuilder::new().message_id_fn(fixed_id).build();
    let mut behaviour = with_config(config, topic_name);
    let (near, far) = (PeerId::random(), PeerId::random());
    let block = topic_name(topic(GossipKind::BeaconBlock, 0));
    peer_subscribes(&mut behaviour, &near, &block);
    peer_subscribes(&mut behaviour, &far, &block);
    behaviour.subscribe_kind(GossipKind::BeaconBlock);
    behaviour.publish(vec![OutgoingMessage {
        kinds: vec![GossipKind::BeaconBlock],
        encoded: Ok(vec![1]),
    }]);
    queued(&mut behaviour);
    behaviour.propagate_message(&near, MessageId("unknown".to_string()));
    assert!(queued(&mut behaviour).is_empty());
    behaviour.propagate_message(&near, MessageId("fixed".to_string()));
    assert_eq!(queued(&mut behaviour), vec![(block, vec![1])]);
}

#[test]
fn publishing_in_parts_is_publishing_as_a_whole() {
    let exit = |data: u8| OutgoingMessage {
        kinds: vec![GossipKind::VoluntaryExit],
        encoded: Ok(vec![data]),
    };
    let name = topic_name(topic(GossipKind::VoluntaryExit, 0));
    let (mut whole, mut parts) = (behaviour(), behaviour());
    let peer = PeerId::random();
    for behaviour in vec![&mut whole, &mut parts] {
        peer_subscribes(behaviour, &peer, &name);
        queued(behaviour);
    }
    whole.publish(vec![exit(1), exit(2), exit(3)]);
    parts.publish(vec![exit(1)]);
    parts.publish(vec![]);
    parts.publish(vec![exit(2), exit(3)]);
    let all = queued(&mut whole);
    assert_eq!(all, queued(&mut parts));
    assert_eq!(
        all,
        vec![(name.clone(), vec![1]), (name.clone(), vec![2]), (name, vec![3])]
    );
}

#[test]
fn a_message_that_comes_in_is_not_forwarded() {
    let mut behaviour = behaviour();
    let (near, far) = (PeerId::random(), PeerId::random());
    let block = topic_name(topic(GossipKind::BeaconBlock, 0));
    peer_subscribes(&mut behaviour, &far, &block);
    behaviour.subscribe_kind(GossipKind::BeaconBlock);
    queued(&mut behaviour);
    let step: TestStep = behaviour.poll(PartPolled::Gossipsub(Polled::Ready(
        SwarmAction::GenerateEvent(gossip("a", &near, Ok("m"))),
    )));
    assert_eq!(next_stage(step), Stage::Gossipsub);
    assert!(queued(&mut behaviour).is_empty());
}

#[test]
fn rpc_and_discovery_calls_are_queued_in_order() {
    let mut behaviour = behaviour();
    let peer = PeerId::random();
    behaviour.send_rpc(peer.clone(), RPCEvent::Request(4, RPCRequest::Other(17)));
    behaviour.peer_banned(peer.clone());
    behaviour.peer_unbanned(&peer);
    behaviour.add_enr(Enr { text: "enr:-a".to_string() });
    behaviour.peers_request(11);
    behaviour.update_enr_subnet(12, true);
    assert_eq!(
        commands(&mut behaviour),
        vec![
            Command::SendRpc(peer.clone(), RPCEvent::Request(4, RPCRequest::Other(17))),
            Command::PeerBanned(peer.clone()),
            Command::PeerUnbanned(peer),
            Command::AddEnr(Enr { text: "enr:-a".to_string() }),
            Command::PeersRequest(11),
            Command::UpdateEnrBitfield(12, true),
        ]
    );
}

#[test]
fn subnet_update_raises_the_sequence_number_even_if_it_failed() {
    let mut behaviour = behaviour();
    behaviour.update_enr_subnet(1, true);
    assert_eq!(behaviour.meta_data().seq_number, 1);
    behaviour.enr_subnet_updated(Ok(()), EnrBitfield { bits: 7 });
    assert_eq!(
        behaviour.meta_data(),
        MetaData { seq_number: 2, attnets: EnrBitfield { bits: 7 } }
    );
    behaviour.enr_subnet_updated(Err("no such subnet".to_string()), EnrBitfield { bits: 7 });
    assert_eq!(
        behaviour.meta_data(),
        MetaData { seq_number: 3, attnets: EnrBitfield { bits: 7 } }
    );
}

#[test]
fn ping_is_answered_within() {
    let mut behaviour = behaviour();
    let peer = PeerId::random();
    behaviour.enr_subnet_updated(Ok(()), EnrBitfield { bits: 0 });
    behaviour.on_rpc_event(RPCMessage {
        peer_id: peer.clone(),
        event: RPCEvent::Request(31, RPCRequest::Ping(Ping { data: 5 })),
    });
    assert_eq!(
        commands(&mut behaviour),
        vec![
            Command::PingRequest(peer.clone(), 5),
            Command::SendRpc(
                peer,
                RPCEvent::Response(
                    31,
                    RPCCodedResponse::Success(RPCResponse::Pong(Ping { data: 2 }))
                )
            ),
        ]
    );
    assert!(events(&mut behaviour).is_empty());
}

#[test]
fn meta_data_request_is_answered_within() {
    let mut behaviour = behaviour();
    let peer = PeerId::random();
    behaviour.on_rpc_event(RPCMessage {
        peer_id: peer.clone(),
        event: RPCEvent::Request(3, RPCRequest::MetaData),
    });
    assert_eq!(
        commands(&mut behaviour),
        vec![Command::SendRpc(
            peer,
            RPCEvent::Response(
                3,
                RPCCodedResponse::Success(RPCResponse::MetaData(MetaData {
                    seq_number: 1,
                    attnets: EnrBitfield { bits: 5 }
                }))
            )
        )]
    );
    assert!(events(&mut behaviour).is_empty());
}

#[test]
fn answers_to_ping_and_meta_data_go_to_the_peer_manager() {
    let mut behaviour = behaviour();
    let peer = PeerId::random();
    let theirs = MetaData { seq_number: 40, attnets: EnrBitfield { bits: 2 } };
    behaviour.on_rpc_event(RPCMessage {
        peer_id: peer.clone(),
        event: RPCEvent::Response(
            1,
            RPCCodedResponse::Success(RPCResponse::Pong(Ping { data: 8 })),
        ),
    });
    behaviour.on_rpc_event(RPCMessage {
        peer_id: peer.clone(),
        event: RPCEvent::Response(2, RPCCodedResponse::Success(RPCResponse::MetaData(theirs))),
    });
    assert_eq!(
        commands(&mut behaviour),
        vec![Command::PongResponse(peer.clone(), 8), Command::MetaDataResponse(peer, theirs)]
    );
    assert!(events(&mut behaviour).is_empty());
}

#[test]
fn status_is_noted_and_handed_on() {
    let mut behaviour = behaviour();
    let peer = PeerId::random();
    behaviour.on_rpc_event(RPCMessage {
        peer_id: peer.clone(),
        event: RPCEvent::Request(1, RPCRequest::Status(100)),
    });
    behaviour.on_rpc_event(RPCMessage {
        peer_id: peer.clone(),
        event: RPCEvent::Response(2, RPCCodedResponse::Success(RPCResponse::Status(200))),
    });
    assert_eq!(
        commands(&mut behaviour),
        vec![Command::PeerStatusd(peer.clone()), Command::PeerStatusd(peer.clone())]
    );
    assert_eq!(
        events(&mut behaviour),
        vec![
            BehaviourEvent::RPC(peer.clone(), RPCEvent::Request(1, RPCRequest::Status(100))),
            BehaviourEvent::RPC(
                peer,
                RPCEvent::Response(2, RPCCodedResponse::Success(RPCResponse::Status(200)))
            ),
        ]
    );
}

#[test]
fn rpc_error_is_noted_and_handed_on() {
    let mut behaviour = behaviour();
    let peer = PeerId::random();
    let error = Arc::new(404);
    behaviour.on_rpc_event(RPCMessage {
        peer_id: peer.clone(),
        event: RPCEvent::Error(6, Protocol::BlocksByRoot, error.clone()),
    });
    assert_eq!(
        commands(&mut behaviour),
        vec![Command::HandleRpcError(peer.clone(), Protocol::BlocksByRoot, error.clone())]
    );
    assert_eq!(
        events(&mut behaviour),
        vec![BehaviourEvent::RPC(peer, RPCEvent::Error(6, Protocol::BlocksByRoot, error))]
    );
}

#[test]
fn other_rpc_events_are_handed_on() {
    let mut behaviour = behaviour();
    let peer = PeerId::random();
    let all: Vec<fn() -> RPCEvent<u32>> = vec![
        || RPCEvent::Request(1, RPCRequest::Other(1)),
        || RPCEvent::Response(2, RPCCodedResponse::Success(RPCResponse::Other(2))),
        || RPCEvent::Response(3, RPCCodedResponse::Other(3)),
    ];
    for event in &all {
        behaviour.on_rpc_event(RPCMessage { peer_id: peer.clone(), event: event() });
    }
    assert!(commands(&mut behaviour).is_empty());
    let handed_on: Vec<_> =
        all.iter().map(|event| BehaviourEvent::RPC(peer.clone(), event())).collect();
    assert_eq!(events(&mut behaviour), handed_on);
}

#[test]
fn gossip_duplicates_are_dropped() {
    let mut behaviour = behaviour();
    let (near, far) = (PeerId::random(), PeerId::random());
    behaviour.on_gossip_event(gossip("a", &near, Ok("one")));
    behaviour.on_gossip_event(gossip("b", &near, Ok("two")));
    behaviour.on_gossip_event(gossip("a", &far, Ok("one")));
    assert_eq!(
        events(&mut behaviour),
        vec![
            BehaviourEvent::PubsubMessage {
                id: MessageId("a".to_string()),
                source: near.clone(),
                topics: vec![TopicHash::from_raw("t")],
                message: "one".to_string(),
            },
            BehaviourEvent::PubsubMessage {
                id: MessageId("b".to_string()),
                source: near,
                topics: vec![TopicHash::from_raw("t")],
                message: "two".to_string(),
            },
        ]
    );
    assert!(commands(&mut behaviour).is_empty());
}

#[test]
fn gossip_that_cannot_be_decoded_counts_as_seen() {
    let mut behaviour = behaviour();
    let peer = PeerId::random();
    behaviour.on_gossip_event(gossip("a", &peer, Err("bad")));
    behaviour.on_gossip_event(gossip("a", &peer, Ok("good")));
    assert!(events(&mut behaviour).is_empty());
}

#[test]
fn gossip_ids_are_remembered_up_to_the_capacity() {
    let mut behaviour = behaviour();
    let peer = PeerId::random();
    behaviour.on_gossip_event(gossip("first", &peer, Ok("m")));
    for i in 0..99_999 {
        behaviour.on_gossip_event(gossip(&format!("{}", i), &peer, Err("")));
    }
    events(&mut behaviour);
    // still remembered, and made the most recent one
    behaviour.on_gossip_event(gossip("first", &peer, Ok("m")));
    assert!(events(&mut behaviour).is_empty());
    for i in 0..100_000 {
        behaviour.on_gossip_event(gossip(&format!("later {}", i), &peer, Err("")));
    }
    // a hundred thousand others have come in since
    behaviour.on_gossip_event(gossip("first", &peer, Ok("m")));
    assert_eq!(events(&mut behaviour).len(), 1);
}

#[test]
fn gossip_ids_are_not_forgotten_over_repeated_messages() {
    let mut behaviour = behaviour();
    let peer = PeerId::random();
    behaviour.on_gossip_event(gossip("first", &peer, Ok("m")));
    for i in 0..200_000 {
        behaviour.on_gossip_event(gossip(&format!("{}", i % 2), &peer, Err("")));
    }
    behaviour.on_gossip_event(gossip("first", &peer, Ok("m")));
    assert_eq!(events(&mut behaviour).len(), 1);
}

#[test]
fn the_sequence_number_grows_with_updates_alone() {
    let mut behaviour = behaviour();
    let peer = PeerId::random();
    for n in 1..4 {
        assert_eq!(behaviour.meta_data().seq_number, n);
        behaviour.subscribe_to_subnet(n);
        behaviour.on_gossip_event(gossip("a", &peer, Ok("m")));
        behaviour.update_fork_version(fork(n as u8));
        behaviour.update_enr_subnet(n, true);
        assert_eq!(behaviour.meta_data().seq_number, n);
        behaviour.enr_subnet_updated(Ok(()), EnrBitfield { bits: n });
    }
}

#[test]
fn subscriptions_of_peers_are_handed_on() {
    let mut behaviour = behaviour();
    let peer = PeerId::random();
    let topic = TopicHash::from_raw("x");
    behaviour
        .on_gossip_event(GossipsubEvent::Subscribed { peer_id: peer.clone(), topic: topic.clone() });
    behaviour.on_gossip_event(GossipsubEvent::Unsubscribed {
        peer_id: peer.clone(),
        topic: topic.clone(),
    });
    assert_eq!(events(&mut behaviour), vec![BehaviourEvent::PeerSubscribed(peer, topic)]);
}

fn info(count: u16) -> IdentifyInfo {
    IdentifyInfo {
        public_key: Keypair::generate_ed25519().public(),
        protocol_version: "p".to_string(),
        agent_version: "a".to_string(),
        listen_addrs: (0..count).map(|port| address(port)).collect(),
        protocols: vec!["x".to_string()],
    }
}

#[test]
fn identify_keeps_ten_addresses() {
    for (listed, kept) in vec![(0u16, 0u16), (9, 9), (10, 10), (11, 10), (40, 10)] {
        let mut behaviour = behaviour();
        let peer = PeerId::random();
        let received = info(listed);
        let mut expected = info(kept);
        expected.public_key = received.public_key.clone();
        behaviour.on_identify_event(IdentifyEvent::Received {
            peer_id: peer.clone(),
            info: received,
            observed_addr: address(1),
        });
        assert_eq!(commands(&mut behaviour), vec![Command::Identify(peer, expected)]);
    }
}

#[test]
fn other_identify_and_discovery_events_are_ignored() {
    let mut behaviour = behaviour();
    let peer = PeerId::random();
    behaviour.on_identify_event(IdentifyEvent::Sent { peer_id: peer.clone() });
    behaviour.on_identify_event(IdentifyEvent::Error { peer_id: peer });
    behaviour.on_discovery_event(DiscoveryEvent);
    assert!(commands(&mut behaviour).is_empty());
    assert!(events(&mut behaviour).is_empty());
}

fn next_stage(step: TestStep) -> Stage {
    match step {
        PollStep::Poll(stage) => stage,
        PollStep::Answer(_) => panic!("polling is at an end"),
    }
}

#[test]
fn parts_are_polled_in_order() {
    let mut behaviour = behaviour();
    let step: TestStep = behaviour.poll(PartPolled::Gossipsub(Polled::Pending));
    assert_eq!(next_stage(step), Stage::Rpc);
    let step: TestStep = behaviour.poll(PartPolled::Rpc(Polled::Pending));
    assert_eq!(next_stage(step), Stage::Identify);
    let step: TestStep = behaviour.poll(PartPolled::Identify(Polled::Pending));
    assert_eq!(next_stage(step), Stage::Discovery);
    let step: TestStep = behaviour.poll(PartPolled::Discovery(Polled::Pending));
    assert_eq!(next_stage(step), Stage::PeerManager);
    let step: TestStep = behaviour.poll(PartPolled::PeerManager(Polled::Pending));
    assert!(matches!(step, PollStep::Answer(Polled::Pending)));
    let step: TestStep = behaviour.poll(PartPolled::PeerManager(Polled::Ready(None)));
    assert!(matches!(step, PollStep::Answer(Polled::Pending)));
}

#[test]
fn a_part_with_an_event_is_polled_again() {
    let mut behaviour = behaviour();
    let peer = PeerId::random();
    let step: TestStep = behaviour.poll(PartPolled::Gossipsub(Polled::Ready(
        SwarmAction::GenerateEvent(gossip("a", &peer, Ok("m"))),
    )));
    assert_eq!(next_stage(step), Stage::Gossipsub);
    let step: TestStep =
        behaviour.poll(PartPolled::Rpc(Polled::Ready(SwarmAction::GenerateEvent(RPCMessage {
            peer_id: peer.clone(),
            event: RPCEvent::Request(9, RPCRequest::Other(1)),
        }))));
    assert_eq!(next_stage(step), Stage::Rpc);
    let step: TestStep = behaviour.poll(PartPolled::Identify(Polled::Ready(
        SwarmAction::GenerateEvent(IdentifyEvent::Sent { peer_id: peer.clone() }),
    )));
    assert_eq!(next_stage(step), Stage::Identify);
    let step: TestStep = behaviour
        .poll(PartPolled::Discovery(Polled::Ready(SwarmAction::GenerateEvent(DiscoveryEvent))));
    assert_eq!(next_stage(step), Stage::Discovery);
    // the events that came up are handed out last, in their order
    let step: TestStep = behaviour.poll(PartPolled::PeerManager(Polled::Pending));
    assert!(matches!(
        step,
        PollStep::Answer(Polled::Ready(SwarmAction::GenerateEvent(
            BehaviourEvent::PubsubMessage { .. }
        )))
    ));
    let step: TestStep = behaviour.poll(PartPolled::PeerManager(Polled::Pending));
    assert!(matches!(
        step,
        PollStep::Answer(Polled::Ready(SwarmAction::GenerateEvent(BehaviourEvent::RPC(_, _))))
    ));
    let step: TestStep = behaviour.poll(PartPolled::PeerManager(Polled::Pending));
    assert!(matches!(step, PollStep::Answer(Polled::Pending)));
}

#[test]
fn an_ended_peer_manager_holds_no_event_back() {
    let mut behaviour = behaviour();
    let peer = PeerId::random();
    for i in 0..3 {
        behaviour.on_rpc_event(RPCMessage {
            peer_id: peer.clone(),
            event: RPCEvent::Request(i, RPCRequest::Other(0)),
        });
    }
    assert_eq!(behaviour.waiting_events(), 3);
    let answers = vec![Polled::Ready(None), Polled::Pending, Polled::Ready(None)];
    for (i, answer) in answers.into_iter().enumerate() {
        let step: TestStep = behaviour.poll(PartPolled::PeerManager(answer));
        match step {
            PollStep::Answer(Polled::Ready(SwarmAction::GenerateEvent(event))) => assert_eq!(
                event,
                BehaviourEvent::RPC(peer.clone(), RPCEvent::Request(i, RPCRequest::Other(0)))
            ),
            _ => panic!("no event"),
        }
    }
    assert_eq!(behaviour.waiting_events(), 0);
    let step: TestStep = behaviour.poll(PartPolled::PeerManager(Polled::Ready(None)));
    assert!(matches!(step, PollStep::Answer(Polled::Pending)));
}

fn sent(step: TestStep) -> SwarmRequest<BehaviourHandlerIn<u8, u16, u32, u64>> {
    match step {
        PollStep::Answer(Polled::Ready(SwarmAction::Request(request))) => request,
        _ => panic!("no request"),
    }
}

#[test]
fn requests_are_passed_on_to_the_swarm() {
    let mut behaviour = behaviour();
    let peer = PeerId::random();
    let step: TestStep = behaviour.poll(PartPolled::Gossipsub(Polled::Ready(
        SwarmAction::Request(SwarmRequest::NotifyHandler {
            peer_id: peer.clone(),
            handler: NotifyHandler::Any,
            event: 1u8,
        }),
    )));
    match sent(step) {
        SwarmRequest::NotifyHandler { peer_id, handler: NotifyHandler::Any, event } => {
            assert_eq!(peer_id, peer);
            assert_eq!(event, BehaviourHandlerIn::Delegate(DelegateIn::Gossipsub(1)));
        }
        _ => panic!("not for a handler"),
    }
    let step: TestStep =
        behaviour.poll(PartPolled::Rpc(Polled::Ready(SwarmAction::Request(
            SwarmRequest::NotifyHandler {
                peer_id: peer.clone(),
                handler: NotifyHandler::All,
                event: 2u16,
            },
        ))));
    match sent(step) {
        SwarmRequest::NotifyHandler { handler: NotifyHandler::All, event, .. } => {
            assert_eq!(event, BehaviourHandlerIn::Delegate(DelegateIn::RPC(2)));
        }
        _ => panic!("not for a handler"),
    }
    let step: TestStep =
        behaviour.poll(PartPolled::Identify(Polled::Ready(SwarmAction::Request(
            SwarmRequest::NotifyHandler {
                peer_id: peer.clone(),
                handler: NotifyHandler::Any,
                event: 3u32,
            },
        ))));
    match sent(step) {
        SwarmRequest::NotifyHandler { event, .. } => {
            assert_eq!(event, BehaviourHandlerIn::Delegate(DelegateIn::Identify(3)));
        }
        _ => panic!("not for a handler"),
    }
    let step: TestStep =
        behaviour.poll(PartPolled::Discovery(Polled::Ready(SwarmAction::Request(
            SwarmRequest::NotifyHandler {
                peer_id: peer.clone(),
                handler: NotifyHandler::Any,
                event: 4u64,
            },
        ))));
    match sent(step) {
        SwarmRequest::NotifyHandler { event, .. } => {
            assert_eq!(event, BehaviourHandlerIn::Delegate(DelegateIn::Discovery(4)));
        }
        _ => panic!("not for a handler"),
    }
    let step: TestStep =
        behaviour.poll(PartPolled::Discovery(Polled::Ready(SwarmAction::Request(
            SwarmRequest::Address(AddressRequest::DialPeer {
                peer_id: peer.clone(),
                condition: DialPeerCondition::Always,
            }),
        ))));
    match sent(step) {
        SwarmRequest::Address(AddressRequest::DialPeer {
            peer_id,
            condition: DialPeerCondition::Always,
        }) => assert_eq!(peer_id, peer),
        _ => panic!("not a dial"),
    }
    let step: TestStep =
        behaviour.poll(PartPolled::Rpc(Polled::Ready(SwarmAction::Request(
            SwarmRequest::Address(AddressRequest::DialAddress { address: address(4) }),
        ))));
    match sent(step) {
        SwarmRequest::Address(AddressRequest::DialAddress { address: to }) => {
            assert_eq!(to, address(4))
        }
        _ => panic!("not a dial"),
    }
}

#[test]
fn peer_manager_events() {
    let mut behaviour = behaviour();
    let peer = PeerId::random();
    let step: TestStep = behaviour.poll(PartPolled::PeerManager(Polled::Ready(Some(
        PeerManagerEvent::Ping(peer.clone()),
    ))));
    assert_eq!(next_stage(step), Stage::PeerManager);
    let step: TestStep = behaviour.poll(PartPolled::PeerManager(Polled::Ready(Some(
        PeerManagerEvent::MetaData(peer.clone()),
    ))));
    assert_eq!(next_stage(step), Stage::PeerManager);
    let step: TestStep = behaviour.poll(PartPolled::PeerManager(Polled::Ready(Some(
        PeerManagerEvent::DisconnectPeer(peer.clone()),
    ))));
    assert_eq!(next_stage(step), Stage::PeerManager);
    let step: TestStep = behaviour.poll(PartPolled::PeerManager(Polled::Ready(Some(
        PeerManagerEvent::BanPeer(peer.clone()),
    ))));
    assert_eq!(next_stage(step), Stage::PeerManager);
    let step: TestStep = behaviour.poll(PartPolled::PeerManager(Polled::Ready(Some(
        PeerManagerEvent::Status(peer.clone()),
    ))));
    match step {
        PollStep::Answer(Polled::Ready(SwarmAction::GenerateEvent(event))) => {
            assert_eq!(event, BehaviourEvent::StatusPeer(peer.clone()))
        }
        _ => panic!("no event"),
    }
    assert_eq!(
        commands(&mut behaviour),
        vec![
            Command::SendRpc(
                peer.clone(),
                RPCEvent::Request(0, RPCRequest::Ping(Ping { data: 1 }))
            ),
            Command::SendRpc(peer, RPCEvent::Request(0, RPCRequest::MetaData)),
        ]
    );
}

#[test]
fn handler_events_are_delegated() {
    type Out = BehaviourHandlerOut<u8, u16, u32, u64>;
    assert_eq!(
        inject_event(Out::Delegate(DelegateOut::RPC(3))),
        Some(DelegateOut::RPC(3))
    );
    assert_eq!(
        inject_event(Out::Delegate(DelegateOut::Discovery(5))),
        Some(DelegateOut::Discovery(5))
    );
    assert_eq!(inject_event(Out::Custom), None);
}

#[test]
fn addresses_of_all_protocols_are_joined() {
    assert_eq!(
        addresses_of_peer(
            vec![address(1), address(2)],
            vec![],
            vec![address(3)],
            vec![address(1)]
        ),
        vec![address(1), address(2), address(3), address(1)]
    );
}

#[test]
fn settings_that_cannot_be_used() {
    let mut config = GossipsubConfig::default();
    assert!(settings_of(&config).is_usable());
    config.history_length = usize::MAX;
    assert!(!settings_of(&config).is_usable());
    let mut config = GossipsubConfig::default();
    config.heartbeat_initial_delay = std::time::Duration::from_secs(u64::MAX);
    assert!(!settings_of(&config).is_usable());
}
