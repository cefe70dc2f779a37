//! The behaviour that combines the gossip, RPC, identify and discovery protocols of an eth2 node.

use libp2p::gossipsub::{Gossipsub, GossipsubConfig};
use libp2p::identify::Identify;
use libp2p::identity::Keypair;
use libp2p::PeerId;
use lru::LruCache;
use vstd::prelude::*;

use crate::gossip::{
    config_settings, forward_message, gossip_config, gossip_source, identify_agent_version,
    identify_protocol_version, identify_public_key, join_topic, keypair_public, leave_topic,
    new_gossipsub, new_identify, peer_id_of, public_key, public_key_peer_id,
    publish_on, published, settings_of, GossipSettings,
};
use crate::model::{
    all_called, all_published, called, forked, gossip_events, identified, join_calls,
    kept_addresses, leave_calls, lemma_call_push, lemma_keys_push, lemma_keys_with_topic,
    lemma_publications_grow, message_propagated, messages_published, meta_data_request,
    meta_data_response, name_of, naming, peer_manager_commands, peer_manager_handed_out,
    ping_event, rpc_commands, rpc_events, same_gossip_setup, seen_after, subscribed, truncated,
    unsubscribed, BehaviourEvent, BehaviourView, Command, TopicCall, MAX_IDENTIFY_ADDRESSES,
    MAX_SEEN_GOSSIP_MESSAGES,
};
use crate::rpc::{Ping, RPCCodedResponse, RPCEvent, RPCMessage, RPCRequest, RPCResponse};
use crate::seen::{cache_capacity, cache_keys, lemma_touched, new_cache, put_key};
use crate::subscriptions::{
    add_topic, distinct, distinct_topics, lemma_distinct, lemma_on_fork, lemma_with_topic,
    lemma_without_topic, on_fork, remove_topic,
};
use crate::types::{
    DiscoveryEvent, Enr, EnrBitfield, EnrForkId, GossipEncoding, GossipKind, GossipTopic,
    GossipsubEvent, IdentifyEvent, MessageId, MetaData, OutgoingMessage, PeerManagerEvent,
    RequestId, SubnetId,
};

verus! {

/// The protocol version that is announced to other peers.
pub open spec fn protocol_version() -> Seq<char> {
    "lighthouse/libp2p"@
}

/// Manages the core protocols of eth2. `M` is the type of a decoded gossip message, `P` that of
/// the RPC content that is handed on unread, and `N` that of the function that names topics.
pub struct Behaviour<M, P, N> {
    /// The routing pub-sub mechanism for eth2.
    gossipsub: Gossipsub,
    /// The parameters that the pub-sub mechanism was made with.
    settings: GossipSettings,
    /// Provides IP addresses and peer information.
    identify: Identify,
    /// The events generated by this behaviour to be consumed when it is polled.
    events: Vec<BehaviourEvent<M, P>>,
    /// What the RPC protocol, the discovery protocol and the peer manager have yet to be told.
    commands: Vec<Command<P>>,
    /// The current meta data of the node, to respond to pings and requests for meta data.
    meta_data: MetaData,
    /// A cache of recently seen gossip messages. This is used to filter out any possible
    /// duplicates that may still be seen over gossipsub.
    seen_gossip_messages: LruCache<String, ()>,
    /// The topics that the node is subscribed to.
    gossipsub_subscriptions: Vec<GossipTopic>,
    /// The current fork, for upgrading gossipsub topics.
    enr_fork_id: EnrForkId,
    /// How a topic is named on the wire.
    topic_name: N,
}

impl<M, P, N> View for Behaviour<M, P, N> {
    type V = BehaviourView<M, P, N>;

    closed spec fn view(&self) -> BehaviourView<M, P, N> {
        BehaviourView {
            gossipsub: self.gossipsub,
            settings: self.settings,
            identify: self.identify,
            events: self.events@,
            commands: self.commands@,
            meta_data: self.meta_data,
            seen: cache_keys(self.seen_gossip_messages),
            seen_capacity: cache_capacity(self.seen_gossip_messages),
            subscriptions: self.gossipsub_subscriptions@,
            enr_fork_id: self.enr_fork_id,
            topic_name: self.topic_name,
        }
    }
}

impl<M, P, N: Fn(GossipTopic) -> String> Behaviour<M, P, N> {
    /// Sets the behaviour up for a node with the given key, which announces itself with
    /// `agent_version`, follows the fork `enr_fork_id` and is on the subnets `attnets`. The list of
    /// subscriptions starts with the topics that the node shares outside the network service.
    pub fn new(
        local_key: &Keypair,
        gs_config: GossipsubConfig,
        agent_version: String,
        enr_fork_id: EnrForkId,
        attnets: EnrBitfield,
        gossipsub_subscriptions: Vec<GossipTopic>,
        topic_name: N,
    ) -> (behaviour: Self)
        requires
            config_settings(gs_config).usable(),
            naming(topic_name),
        ensures
            behaviour@.wf(),
            gossip_config(behaviour@.gossipsub) == gs_config,
            behaviour@.settings == config_settings(gs_config),
            behaviour@.joined() == Set::<Seq<char>>::empty(),
            behaviour@.cached() == Set::<Seq<char>>::empty(),
            !behaviour@.settings.no_source_id ==> gossip_source(behaviour@.gossipsub)
                == public_key_peer_id(keypair_public(*local_key)),
            identify_protocol_version(behaviour@.identify) == protocol_version(),
            identify_agent_version(behaviour@.identify) == agent_version@,
            identify_public_key(behaviour@.identify) == keypair_public(*local_key),
            behaviour@.events == Seq::<BehaviourEvent<M, P>>::empty(),
            behaviour@.commands == Seq::<Command<P>>::empty(),
            behaviour@.meta_data == (MetaData { seq_number: 1, attnets }),
            behaviour@.seen == Seq::<Seq<char>>::empty(),
            behaviour@.seen_capacity == MAX_SEEN_GOSSIP_MESSAGES,
            behaviour@.subscriptions == distinct(gossipsub_subscriptions@),
            behaviour@.enr_fork_id == enr_fork_id,
            behaviour@.topic_name == topic_name,
    {
        let local_peer_id = peer_id_of(public_key(local_key));
        let identify = new_identify(
            "lighthouse/libp2p".to_owned(),
            agent_version,
            public_key(local_key),
        );
        let settings = settings_of(&gs_config);
        let meta_data = MetaData { seq_number: 1, attnets };
        proof {
            lemma_distinct(gossipsub_subscriptions@);
        }
        Behaviour {
            gossipsub: new_gossipsub(local_peer_id, gs_config),
            settings,
            identify,
            events: Vec::new(),
            commands: Vec::new(),
            meta_data,
            seen_gossip_messages: new_cache(MAX_SEEN_GOSSIP_MESSAGES),
            gossipsub_subscriptions: distinct_topics(&gossipsub_subscriptions),
            enr_fork_id,
            topic_name,
        }
    }

    /// Obtain a reference to the gossipsub protocol.
    pub fn gs(&self) -> (gossipsub: &Gossipsub)
        ensures
            *gossipsub == self@.gossipsub,
    {
        &self.gossipsub
    }

    /* Pubsub behaviour functions */

    /// Subscribes to a gossipsub topic kind, letting the behaviour determine the encoding and
    /// fork version. Returns whether the topic was not subscribed to before.
    pub fn subscribe_kind(&mut self, kind: GossipKind) -> (fresh: bool)
        requires
            old(self)@.wf(),
        ensures
            final(self)@.wf(),
            subscribed(old(self)@, old(self)@.topic(kind), fresh, final(self)@),
    {
        let gossip_topic = GossipTopic::new(
            kind,
            GossipEncoding::default(),
            self.enr_fork_id.fork_digest,
        );
        self.subscribe(gossip_topic)
    }

    /// Unsubscribes from a gossipsub topic kind, letting the behaviour determine the encoding and
    /// fork version. Returns whether the topic was subscribed to.
    pub fn unsubscribe_kind(&mut self, kind: GossipKind) -> (was_joined: bool)
        requires
            old(self)@.wf(),
        ensures
            final(self)@.wf(),
            unsubscribed(old(self)@, old(self)@.topic(kind), was_joined, final(self)@),
    {
        let gossip_topic = GossipTopic::new(
            kind,
            GossipEncoding::default(),
            self.enr_fork_id.fork_digest,
        );
        self.unsubscribe(gossip_topic)
    }

    /// Subscribes to a specific subnet id. Returns whether its topic was not subscribed to before.
    pub fn subscribe_to_subnet(&mut self, subnet_id: SubnetId) -> (fresh: bool)
        requires
            old(self)@.wf(),
        ensures
            final(self)@.wf(),
            subscribed(
                old(self)@,
                old(self)@.topic(GossipKind::CommitteeIndex(subnet_id)),
                fresh,
                final(self)@,
            ),
    {
        let topic = GossipTopic::new(
            GossipKind::from_subnet(subnet_id),
            GossipEncoding::default(),
            self.enr_fork_id.fork_digest,
        );
        self.subscribe(topic)
    }

    /// Un-Subscribes from a specific subnet id. Returns whether its topic was subscribed to.
    pub fn unsubscribe_from_subnet(&mut self, subnet_id: SubnetId) -> (was_joined: bool)
        requires
            old(self)@.wf(),
        ensures
            final(self)@.wf(),
            unsubscribed(
                old(self)@,
                old(self)@.topic(GossipKind::CommitteeIndex(subnet_id)),
                was_joined,
                final(self)@,
            ),
    {
        let topic = GossipTopic::new(
            GossipKind::from_subnet(subnet_id),
            GossipEncoding::default(),
            self.enr_fork_id.fork_digest,
        );
        self.unsubscribe(topic)
    }

    /// Takes the list of subscriptions anew from the topics that the node shares outside the
    /// network service, where others may have changed them.
    pub fn load_subscriptions(&mut self, topics: &Vec<GossipTopic>)
        requires
            old(self)@.wf(),
        ensures
            final(self)@.wf(),
            final(self)@ == (BehaviourView { subscriptions: distinct(topics@), ..old(self)@ }),
    {
        proof {
            lemma_distinct(topics@);
        }
        self.gossipsub_subscriptions = distinct_topics(topics);
    }

    /// Subscribes to a gossipsub topic.
    fn subscribe(&mut self, topic: GossipTopic) -> (fresh: bool)
        requires
            old(self)@.wf(),
        ensures
            final(self)@.wf(),
            subscribed(old(self)@, topic, fresh, final(self)@),
    {
        proof {
            lemma_with_topic(self@.subscriptions, topic);
        }
        add_topic(&mut self.gossipsub_subscriptions, topic);
        let name = (self.topic_name)(topic);
        let fresh = join_topic(&mut self.gossipsub, name);
        proof {
            let key = old(self)@.key(topic);
            assert(old(self)@.joined().difference(Set::empty()) =~= old(self)@.joined());
            assert(old(self)@.joined().union(set![key]) =~= old(self)@.joined().insert(key));
        }
        fresh
    }

    /// Unsubscribe from a gossipsub topic.
    fn unsubscribe(&mut self, topic: GossipTopic) -> (was_joined: bool)
        requires
            old(self)@.wf(),
        ensures
            final(self)@.wf(),
            unsubscribed(old(self)@, topic, was_joined, final(self)@),
    {
        proof {
            lemma_without_topic(self@.subscriptions, topic);
        }
        remove_topic(&mut self.gossipsub_subscriptions, &topic);
        let name = (self.topic_name)(topic);
        leave_topic(&mut self.gossipsub, name)
    }

    /// Tells whether a list of messages can be published: the gossip protocol has to keep a history
    /// if there is anything to publish.
    pub fn can_publish(&self, messages: &Vec<OutgoingMessage>) -> (can: bool)
        ensures
            can == (self@.publications(messages@).len() > 0 ==> self@.settings.history_length > 0),
    {
        if self.settings.history_length > 0 {
            return true;
        }
        let mut i: usize = 0;
        while i < messages.len()
            invariant
                i <= messages.len(),
                self@.settings.history_length == 0,
                self@.publications(messages@.take(i as int)).len() == 0,
            decreases messages.len() - i,
        {
            let message = &messages[i];
            proof {
                assert(messages@.take(i + 1).drop_last() =~= messages@.take(i as int));
                lemma_publications_grow(self@, messages@, i + 1);
            }
            if message.encoded.is_ok() && message.kinds.len() > 0 {
                return false;
            }
            i = i + 1;
        }
        assert(messages@.take(messages@.len() as int) =~= messages@);
        true
    }

    /// Publishes a list of messages on the pubsub (gossipsub) behaviour, choosing the encoding.
    /// Messages that could not be encoded are passed over.
    pub fn publish(&mut self, messages: Vec<OutgoingMessage>)
        requires
            old(self)@.wf(),
            old(self)@.publications(messages@).len() > 0 ==> old(self)@.settings.history_length > 0,
        ensures
            final(self)@.wf(),
            messages_published(old(self)@, messages@, final(self)@),
    {
        let mut i: usize = 0;
        while i < messages.len()
            invariant
                i <= messages.len(),
                old(self)@.publications(messages@).len() > 0
                    ==> old(self)@.settings.history_length > 0,
                self@.wf(),
                self@ == (BehaviourView { gossipsub: self@.gossipsub, ..old(self)@ }),
                same_gossip_setup(old(self)@.gossipsub, self@.gossipsub),
                self@.joined() == old(self)@.joined(),
                old(self)@.cached().subset_of(self@.cached()),
                all_published(
                    old(self)@.gossipsub,
                    old(self)@.publications(messages@.take(i as int)),
                    self@.gossipsub,
                ),
            decreases messages.len() - i,
        {
            let message = &messages[i];
            let ghost done = old(self)@.publications(messages@.take(i as int));
            proof {
                assert(messages@.take(i + 1).drop_last() =~= messages@.take(i as int));
                assert(messages@.take(i + 1).last() == messages@[i as int]);
            }
            match &message.encoded {
                Ok(message_data) => {
                    let mut j: usize = 0;
                    assert(old(self)@.publications_of(
                        message.kinds@.take(0),
                        message_data@,
                    ) =~= Seq::<(Seq<char>, Seq<u8>)>::empty());
                    assert(done + Seq::<(Seq<char>, Seq<u8>)>::empty() =~= done);
                    proof {
                        lemma_publications_grow(old(self)@, messages@, i + 1);
                    }
                    while j < message.kinds.len()
                        invariant
                            j <= message.kinds.len(),
                            message.kinds.len() > 0 ==> self@.settings.history_length > 0,
                            self@.wf(),
                            self@ == (BehaviourView { gossipsub: self@.gossipsub, ..old(self)@ }),
                            same_gossip_setup(old(self)@.gossipsub, self@.gossipsub),
                            self@.joined() == old(self)@.joined(),
                            old(self)@.cached().subset_of(self@.cached()),
                            all_published(
                                old(self)@.gossipsub,
                                done + old(self)@.publications_of(
                                    message.kinds@.take(j as int),
                                    message_data@,
                                ),
                                self@.gossipsub,
                            ),
                        decreases message.kinds.len() - j,
                    {
                        let topic = GossipTopic::new(
                            message.kinds[j],
                            GossipEncoding::default(),
                            self.enr_fork_id.fork_digest,
                        );
                        let name = (self.topic_name)(topic);
                        let ghost so_far = done + old(self)@.publications_of(
                            message.kinds@.take(j as int),
                            message_data@,
                        );
                        let ghost with_next = done + old(self)@.publications_of(
                            message.kinds@.take(j + 1),
                            message_data@,
                        );
                        let ghost before = self@.gossipsub;
                        publish_on(&mut self.gossipsub, name, message_data);
                        proof {
                            assert(with_next =~= so_far.push((name@, message_data@)));
                            assert(with_next.drop_last() =~= so_far);
                            assert(with_next.last() == (name@, message_data@));
                            assert(all_published(
                                old(self)@.gossipsub,
                                with_next.drop_last(),
                                before,
                            ));
                            assert(published(
                                before,
                                with_next.last().0,
                                with_next.last().1,
                                self@.gossipsub,
                            ));
                        }
                        j = j + 1;
                    }
                    assert(message.kinds@.take(message.kinds@.len() as int) =~= message.kinds@);
                },
                Err(_) => {},
            }
            i = i + 1;
        }
        assert(messages@.take(messages@.len() as int) =~= messages@);
    }

    /// Forwards a message that is waiting in gossipsub's mcache. Messages are only propagated
    /// once validated by the beacon chain. Nothing happens if the message is not in the mcache.
    pub fn propagate_message(&mut self, propagation_source: &PeerId, message_id: MessageId)
        requires
            old(self)@.wf(),
        ensures
            final(self)@.wf(),
            message_propagated(old(self)@, *propagation_source, message_id.0@, final(self)@),
    {
        let _ = forward_message(&mut self.gossipsub, message_id, propagation_source);
    }

    /* Eth2 RPC behaviour functions */

    /// Sends an RPC Request/Response via the RPC protocol.
    pub fn send_rpc(&mut self, peer_id: PeerId, rpc_event: RPCEvent<P>)
        ensures
            final(self)@ == old(self)@.commanding(Command::SendRpc(peer_id, rpc_event)),
    {
        self.commands.push(Command::SendRpc(peer_id, rpc_event));
    }

    /* Discovery / Peer management functions */

    /// Notify discovery that the peer has been banned.
    pub fn peer_banned(&mut self, peer_id: PeerId)
        ensures
            final(self)@ == old(self)@.commanding(Command::PeerBanned(peer_id)),
    {
        self.commands.push(Command::PeerBanned(peer_id));
    }

    /// Notify discovery that the peer has been unbanned.
    pub fn peer_unbanned(&mut self, peer_id: &PeerId)
        ensures
            final(self)@ == old(self)@.commanding(Command::PeerUnbanned(*peer_id)),
    {
        self.commands.push(Command::PeerUnbanned(peer_id.clone()));
    }

    /// Add an ENR to the routing table of the discovery mechanism.
    pub fn add_enr(&mut self, enr: Enr)
        ensures
            final(self)@ == old(self)@.commanding(Command::AddEnr(enr)),
    {
        self.commands.push(Command::AddEnr(enr));
    }

    /// Updates a subnet value to the ENR bitfield.
    ///
    /// The `value` is `true` if a subnet is being added and false otherwise. Discovery reports
    /// back through `enr_subnet_updated`.
    pub fn update_enr_subnet(&mut self, subnet_id: SubnetId, value: bool)
        ensures
            final(self)@ == old(self)@.commanding(Command::UpdateEnrBitfield(subnet_id, value)),
    {
        self.commands.push(Command::UpdateEnrBitfield(subnet_id, value));
    }

    /// Discovery has dealt with a subnet update; `attnets` is the bitfield of the local record.
    /// Whether or not the update succeeded, the local meta data is updated, which informs our
    /// peers during PINGS.
    pub fn enr_subnet_updated(&mut self, _outcome: Result<(), String>, attnets: EnrBitfield)
        requires
            old(self)@.meta_data.seq_number < u64::MAX,
        ensures
            final(self)@ == old(self)@.with_new_attnets(attnets),
    {
        self.update_metadata(attnets);
    }

    /// A request to search for peers connected to a long-lived subnet.
    pub fn peers_request(&mut self, subnet_id: SubnetId)
        ensures
            final(self)@ == old(self)@.commanding(Command::PeersRequest(subnet_id)),
    {
        self.commands.push(Command::PeersRequest(subnet_id));
    }

    /// Updates the local ENR's "eth2" field with the latest EnrForkId, and moves all
    /// subscriptions to the new fork.
    pub fn update_fork_version(&mut self, enr_fork_id: EnrForkId)
        requires
            old(self)@.wf(),
        ensures
            final(self)@.wf(),
            forked(old(self)@, enr_fork_id, final(self)@),
    {
        self.commands.push(Command::UpdateEth2Enr(enr_fork_id));

        // unsubscribe from all gossip topics and re-subscribe to their new fork counterparts
        let subscribed_topics = self.gossipsub_subscriptions.clone();
        assert(subscribed_topics@ =~= old(self)@.subscriptions);
        let ghost topics = old(self)@.subscriptions;
        let ghost start = self@;

        // unsubscribe from all topics
        let mut i: usize = 0;
        proof {
            assert(topics.skip(0) =~= topics);
            assert(start.keys(topics.take(0)) =~= Set::empty());
            assert(start.joined().difference(Set::empty()) =~= start.joined());
        }
        while i < subscribed_topics.len()
            invariant
                i <= subscribed_topics.len(),
                subscribed_topics@ == topics,
                all_called(
                    start.gossipsub,
                    leave_calls(start.topic_name, topics.take(i as int)),
                    self@.gossipsub,
                ),
                topics.no_duplicates(),
                self@.wf(),
                self@ == (BehaviourView {
                    gossipsub: self@.gossipsub,
                    subscriptions: topics.skip(i as int),
                    ..start
                }),
                same_gossip_setup(start.gossipsub, self@.gossipsub),
                self@.cached() == start.cached(),
                self@.joined() == start.joined().difference(start.keys(topics.take(i as int))),
            decreases subscribed_topics.len() - i,
        {
            let topic = subscribed_topics[i];
            let ghost before = self@;
            self.unsubscribe(topic);
            proof {
                assert(before.subscriptions[0] == topic);
                assert(before.subscriptions.contains(topic));
                assert(before.subscriptions.index_of(topic) == 0);
                assert(before.subscriptions.remove(0) =~= topics.skip(i + 1));
                lemma_keys_push(start.settings, start.topic_name, topics.take(i as int), topic);
                assert(topics.take(i as int).push(topic) =~= topics.take(i + 1));
                let left_before = leave_calls(start.topic_name, topics.take(i as int));
                let call = TopicCall::Leave(name_of(start.topic_name, topic));
                assert(called(before.gossipsub, call, self@.gossipsub));
                lemma_call_push(
                    start.gossipsub,
                    left_before,
                    before.gossipsub,
                    call,
                    self@.gossipsub,
                );
                assert(leave_calls(start.topic_name, topics.take(i + 1)) =~= left_before.push(call));
                assert(before.joined().remove(start.key(topic)) =~= start.joined().difference(
                    start.keys(topics.take(i + 1)),
                ));
            }
            i = i + 1;
        }
        proof {
            assert(topics.take(topics.len() as int) =~= topics);
            assert(topics.skip(topics.len() as int) =~= Seq::empty());
            assert(topics.take(0) =~= Seq::empty());
        }
        let ghost left = self@;
        let ghost digest = enr_fork_id.fork_digest;
        let ghost leaves = leave_calls(start.topic_name, topics);

        // re-subscribe modifying the fork version
        let mut j: usize = 0;
        proof {
            assert(on_fork(topics.take(0), digest) =~= Seq::empty());
            assert(start.keys(Seq::empty()) =~= Set::empty());
            assert(left.joined().union(Set::empty()) =~= left.joined());
            assert(leaves + join_calls(start.topic_name, topics.take(0), digest) =~= leaves);
        }
        while j < subscribed_topics.len()
            invariant
                j <= subscribed_topics.len(),
                subscribed_topics@ == topics,
                digest == enr_fork_id.fork_digest,
                all_called(
                    start.gossipsub,
                    leaves + join_calls(start.topic_name, topics.take(j as int), digest),
                    self@.gossipsub,
                ),
                left.settings == start.settings,
                left.topic_name == start.topic_name,
                self@.wf(),
                self@ == (BehaviourView {
                    gossipsub: self@.gossipsub,
                    subscriptions: on_fork(topics.take(j as int), digest),
                    ..left
                }),
                same_gossip_setup(start.gossipsub, self@.gossipsub),
                self@.cached() == start.cached(),
                left.joined().subset_of(self@.joined()),
                self@.joined().subset_of(
                    left.joined().union(start.keys(on_fork(topics.take(j as int), digest))),
                ),
                start.settings.mesh_n > 0 ==> self@.joined() == left.joined().union(
                    start.keys(on_fork(topics.take(j as int), digest)),
                ),
            decreases subscribed_topics.len() - j,
        {
            let topic = subscribed_topics[j];
            let moved = GossipTopic::new(topic.kind, topic.encoding, enr_fork_id.fork_digest);
            let ghost before = self@;
            self.subscribe(moved);
            proof {
                assert(topics.take(j + 1).drop_last() =~= topics.take(j as int));
                assert(topics.take(j + 1).last() == topic);
                let called_before = leaves + join_calls(
                    start.topic_name,
                    topics.take(j as int),
                    digest,
                );
                let call = TopicCall::Join(name_of(start.topic_name, moved));
                assert(called(before.gossipsub, call, self@.gossipsub));
                lemma_call_push(
                    start.gossipsub,
                    called_before,
                    before.gossipsub,
                    call,
                    self@.gossipsub,
                );
                assert(moved == topic.on_fork(digest));
                assert(leaves + join_calls(start.topic_name, topics.take(j + 1), digest)
                    =~= called_before.push(call));
                let forked_so_far = on_fork(topics.take(j as int), digest);
                lemma_on_fork(topics.take(j as int), digest);
                lemma_with_topic(forked_so_far, moved);
                lemma_keys_with_topic(start.settings, start.topic_name, forked_so_far, moved);
                let key = start.key(moved);
                assert(before.joined().difference(Set::empty()) =~= before.joined());
                assert(left.joined().union(start.keys(on_fork(topics.take(j + 1), digest)))
                    =~= left.joined().union(start.keys(forked_so_far)).insert(key));
                assert(before.joined().union(set![key]) =~= before.joined().insert(key));
            }
            j = j + 1;
        }

        // update the local reference
        self.enr_fork_id = enr_fork_id;
    }

    /* Private internal functions */

    /// Updates the current meta data of the node.
    fn update_metadata(&mut self, attnets: EnrBitfield)
        requires
            old(self)@.meta_data.seq_number < u64::MAX,
        ensures
            final(self)@ == old(self)@.with_new_attnets(attnets),
    {
        self.meta_data = MetaData { seq_number: self.meta_data.seq_number + 1, attnets };
    }

    /// Sends a PING/PONG request/response to a peer.
    fn send_ping(&mut self, id: RequestId, peer_id: PeerId, is_request: bool)
        ensures
            final(self)@ == old(self)@.commanding(
                Command::SendRpc(peer_id, ping_event(id, old(self)@.meta_data, is_request)),
            ),
    {
        let ping = Ping { data: self.meta_data.seq_number };
        let event = if is_request {
            RPCEvent::Request(id, RPCRequest::Ping(ping))
        } else {
            RPCEvent::Response(id, RPCCodedResponse::Success(RPCResponse::Pong(ping)))
        };
        self.send_rpc(peer_id, event);
    }

    /// Sends a METADATA request to a peer.
    fn send_meta_data_request(&mut self, peer_id: PeerId)
        ensures
            final(self)@ == old(self)@.commanding(Command::SendRpc(peer_id, meta_data_request())),
    {
        let metadata_request = RPCEvent::Request(0, RPCRequest::MetaData);
        self.send_rpc(peer_id, metadata_request);
    }

    /// Sends a METADATA response to a peer.
    fn send_meta_data_response(&mut self, id: RequestId, peer_id: PeerId)
        ensures
            final(self)@ == old(self)@.commanding(
                Command::SendRpc(peer_id, meta_data_response(id, old(self)@.meta_data)),
            ),
    {
        let metadata_response = RPCEvent::Response(
            id,
            RPCCodedResponse::Success(RPCResponse::MetaData(self.meta_data)),
        );
        self.send_rpc(peer_id, metadata_response);
    }

    /// Deals with an event of the gossip protocol: hands decoded messages that are not duplicates
    /// and the subscriptions of peers to the network.
    pub fn on_gossip_event(&mut self, event: GossipsubEvent<M>)
        requires
            old(self)@.wf(),
        ensures
            final(self)@.wf(),
            final(self)@ == (BehaviourView {
                events: old(self)@.events + gossip_events(old(self)@.seen, event),
                seen: seen_after(old(self)@.seen, old(self)@.seen_capacity, event),
                ..old(self)@
            }),
    {
        match event {
            GossipsubEvent::Message { propagation_source, id, topics, decoded } => {
                proof {
                    lemma_touched(self@.seen, self@.seen_capacity, id.0@);
                }
                // Note: We are keeping track here of the peer that sent us the message, not the
                // peer that originally published the message.
                if put_key(&mut self.seen_gossip_messages, id.0.clone()).is_none() {
                    match decoded {
                        Err(_) => {},
                        Ok(message) => {
                            // if this message isn't a duplicate, notify the network
                            self.events.push(
                                BehaviourEvent::PubsubMessage {
                                    id,
                                    source: propagation_source,
                                    topics,
                                    message,
                                },
                            );
                        },
                    }
                }
            },
            GossipsubEvent::Subscribed { peer_id, topic } => {
                self.events.push(BehaviourEvent::PeerSubscribed(peer_id, topic));
            },
            GossipsubEvent::Unsubscribed { .. } => {},
        }
        assert(self@.events =~= old(self)@.events + gossip_events(old(self)@.seen, event));
    }

    /// Deals with an RPC event. The METADATA and PING RPC responses are handled within the
    /// behaviour and not propagated.
    pub fn on_rpc_event(&mut self, message: RPCMessage<P>)
        ensures
            final(self)@ == (BehaviourView {
                events: old(self)@.events + rpc_events(message),
                commands: old(self)@.commands + rpc_commands(old(self)@.meta_data, message),
                ..old(self)@
            }),
    {
        let ghost whole = message;
        let peer_id = message.peer_id;
        match message.event {
            RPCEvent::Request(id, RPCRequest::Ping(ping)) => {
                // inform the peer manager and send the response
                self.commands.push(Command::PingRequest(peer_id.clone(), ping.data));
                // send a ping response
                self.send_ping(id, peer_id, false);
            },
            RPCEvent::Request(id, RPCRequest::MetaData) => {
                // send the requested meta-data
                self.send_meta_data_response(id, peer_id);
            },
            RPCEvent::Response(_, RPCCodedResponse::Success(RPCResponse::Pong(ping))) => {
                self.commands.push(Command::PongResponse(peer_id, ping.data));
            },
            RPCEvent::Response(_, RPCCodedResponse::Success(RPCResponse::MetaData(meta_data))) => {
                self.commands.push(Command::MetaDataResponse(peer_id, meta_data));
            },
            RPCEvent::Request(id, RPCRequest::Status(status)) => {
                // inform the peer manager that we have received a status from a peer
                self.commands.push(Command::PeerStatusd(peer_id.clone()));
                // propagate the STATUS message upwards
                self.events.push(
                    BehaviourEvent::RPC(peer_id, RPCEvent::Request(id, RPCRequest::Status(status))),
                );
            },
            RPCEvent::Response(id, RPCCodedResponse::Success(RPCResponse::Status(status))) => {
                // inform the peer manager that we have received a status from a peer
                self.commands.push(Command::PeerStatusd(peer_id.clone()));
                // propagate the STATUS message upwards
                self.events.push(
                    BehaviourEvent::RPC(
                        peer_id,
                        RPCEvent::Response(
                            id,
                            RPCCodedResponse::Success(RPCResponse::Status(status)),
                        ),
                    ),
                );
            },
            RPCEvent::Error(id, protocol, error) => {
                self.commands.push(
                    Command::HandleRpcError(peer_id.clone(), protocol, error.clone()),
                );
                self.events.push(
                    BehaviourEvent::RPC(peer_id, RPCEvent::Error(id, protocol, error)),
                );
            },
            other => {
                // propagate all other RPC messages upwards
                self.events.push(BehaviourEvent::RPC(peer_id, other));
            },
        }
        proof {
            assert(self@.events =~= old(self)@.events + rpc_events(whole));
            assert(self@.commands =~= old(self)@.commands + rpc_commands(
                old(self)@.meta_data,
                whole,
            ));
        }
    }

    /// Deals with an event of the identify protocol.
    pub fn on_identify_event(&mut self, event: IdentifyEvent)
        ensures
            identified(old(self)@, event, final(self)@),
    {
        match event {
            IdentifyEvent::Received { peer_id, info, observed_addr: _ } => {
                let mut info = info;
                let ghost received = info;
                if info.listen_addrs.len() > MAX_IDENTIFY_ADDRESSES {
                    info.listen_addrs.truncate(MAX_IDENTIFY_ADDRESSES);
                }
                proof {
                    assert(info.listen_addrs@ =~= received.listen_addrs@.take(
                        kept_addresses(received.listen_addrs@.len()),
                    ));
                    assert(truncated(received, info));
                }
                // send peer info to the peer manager.
                self.commands.push(Command::Identify(peer_id, info));
            },
            IdentifyEvent::Sent { .. } => {},
            IdentifyEvent::Error { .. } => {},
        }
    }

    /// Deals with an event of the discovery protocol: there is nothing to do.
    pub fn on_discovery_event(&mut self, _event: DiscoveryEvent)
        ensures
            final(self)@ == old(self)@,
    {
    }

    /// Deals with an event of the peer manager. An event that is to be handed out at once is
    /// returned.
    pub fn on_peer_manager_event(&mut self, event: PeerManagerEvent) -> (handed_out: Option<
        BehaviourEvent<M, P>,
    >)
        ensures
            handed_out == peer_manager_handed_out::<M, P>(event),
            final(self)@ == (BehaviourView {
                commands: old(self)@.commands + peer_manager_commands(
                    old(self)@.meta_data,
                    event,
                ),
                ..old(self)@
            }),
    {
        let handed_out = match event {
            PeerManagerEvent::Status(peer_id) => {
                // it's time to status. We don't keep a beacon chain reference here, so we inform
                // the network to send a status to this peer
                Some(BehaviourEvent::StatusPeer(peer_id))
            },
            PeerManagerEvent::Ping(peer_id) => {
                // send a ping request to this peer
                self.send_ping(0, peer_id, true);
                None
            },
            PeerManagerEvent::MetaData(peer_id) => {
                self.send_meta_data_request(peer_id);
                None
            },
            PeerManagerEvent::DisconnectPeer(_) => None,
            PeerManagerEvent::BanPeer(_) => None,
        };
        assert(self@.commands =~= old(self)@.commands + peer_manager_commands(
            old(self)@.meta_data,
            event,
        ));
        handed_out
    }

    /// The number of events that are waiting to be handed out.
    pub fn waiting_events(&self) -> (count: usize)
        ensures
            count == self@.events.len(),
    {
        self.events.len()
    }

    /// Takes the oldest of the events that are waiting to be handed out.
    pub fn next_event(&mut self) -> (event: Option<BehaviourEvent<M, P>>)
        ensures
            old(self)@.events.len() == 0 ==> event is None && final(self)@ == old(self)@,
            old(self)@.events.len() > 0 ==> event == Some(old(self)@.events[0]) && final(self)@ == (
            BehaviourView { events: old(self)@.events.drop_first(), ..old(self)@ }),
    {
        if !self.events.is_empty() {
            let event = self.events.remove(0);
            assert(self@.events =~= old(self)@.events.drop_first());
            return Some(event);
        }
        None
    }

    /// Takes the oldest of the commands that are waiting to be carried out.
    pub fn next_command(&mut self) -> (command: Option<Command<P>>)
        ensures
            old(self)@.commands.len() == 0 ==> command is None && final(self)@ == old(self)@,
            old(self)@.commands.len() > 0 ==> command == Some(old(self)@.commands[0])
                && final(self)@ == (BehaviourView {
                commands: old(self)@.commands.drop_first(),
                ..old(self)@
            }),
    {
        if !self.commands.is_empty() {
            let command = self.commands.remove(0);
            assert(self@.commands =~= old(self)@.commands.drop_first());
            return Some(command);
        }
        None
    }

    /// The gossip protocol, for the swarm to drive. Its configuration has to stay the one that it
    /// was set up with, for the behaviour to remain well-formed.
    pub fn gossipsub_mut(&mut self) -> (gossipsub: &mut Gossipsub)
        ensures
            *gossipsub == old(self)@.gossipsub,
            final(self)@ == (BehaviourView { gossipsub: *final(gossipsub), ..old(self)@ }),
    {
        &mut self.gossipsub
    }

    /// The identify protocol, for the swarm to drive.
    pub fn identify_mut(&mut self) -> (identify: &mut Identify)
        ensures
            *identify == old(self)@.identify,
            final(self)@ == (BehaviourView { identify: *final(identify), ..old(self)@ }),
    {
        &mut self.identify
    }

    /// The parameters that the gossip protocol was set up with.
    pub fn settings(&self) -> (settings: GossipSettings)
        ensures
            settings == self@.settings,
    {
        self.settings
    }

    /// The topics that the node is subscribed to.
    pub fn gossipsub_subscriptions(&self) -> (topics: &Vec<GossipTopic>)
        ensures
            topics@ == self@.subscriptions,
    {
        &self.gossipsub_subscriptions
    }

    /// The meta data of the local node.
    pub fn meta_data(&self) -> (meta_data: MetaData)
        ensures
            meta_data == self@.meta_data,
    {
        self.meta_data
    }

    /// The fork that the node follows.
    pub fn enr_fork_id(&self) -> (enr_fork_id: EnrForkId)
        ensures
            enr_fork_id == self@.enr_fork_id,
    {
        self.enr_fork_id
    }
}

} // verus!
