//! What the caller of each operation can rely on, written out: over what the operation was given,
//! what it returned, and what the state holds before and after it.

use libp2p::gossipsub::{Gossipsub, GossipsubConfig};
use libp2p::identity::Keypair;
use libp2p::{Multiaddr, PeerId};
use vstd::prelude::*;

use crate::behaviour::Behaviour;
use crate::gossip::{
    cached_messages, config_settings, gossip_config, gossip_source, identify_agent_version,
    identify_protocol_version, identify_public_key, joined_by, joined_topics, keypair_public,
    left_by, propagated, public_key_peer_id, published, topic_sha256, GossipSettings,
};
use crate::laws::law_fork_moves_all_subscriptions;
use crate::model::{
    all_called, all_published, called, join_calls, key_of, leave_calls, lemma_publications_grow,
    name_of, BehaviourEvent, BehaviourView, Command, TopicCall,
};
use crate::rpc::{Ping, RPCCodedResponse, RPCEvent, RPCMessage, RPCRequest, RPCResponse};
use crate::subscriptions::{add_topic, distinct_topics, lemma_distinct, remove_topic};
use crate::swarm::{
    addresses_of_peer, inject_event, AddressRequest, BehaviourHandlerIn, BehaviourHandlerOut,
    DelegateIn, DelegateOut, PartPolled, PollStep, Polled, Stage, SwarmAction, SwarmRequest,
};
use crate::text::{decimal, to_decimal};
use crate::types::{
    default_encoding, DiscoveryEvent, Enr, EnrBitfield, EnrForkId, GossipEncoding, GossipKind,
    GossipTopic, GossipsubEvent, IdentifyEvent, MessageId, MetaData, OutgoingMessage,
    PeerManagerEvent, SubnetId,
};
use crate::websocket::{
    broadcast_result, described, replied, start_server, Config, ServerStart, StartRequest,
    StartStage, WebSocketSender,
};

verus! {

/// The keys of a list of topics are those of its members.
proof fn lemma_keys_listed<M, P, N: Fn(GossipTopic) -> String>(
    state: BehaviourView<M, P, N>,
    topics: Seq<GossipTopic>,
)
    ensures
        forall|key: Seq<char>| #[trigger]
            state.keys(topics).contains(key) <==> (exists|i: int|
                0 <= i < topics.len() && state.key(#[trigger] topics[i]) == key),
{
    let f = |t: GossipTopic| key_of(state.settings, state.topic_name, t);
    assert forall|key: Seq<char>| #[trigger]
        state.keys(topics).contains(key) <==> (exists|i: int|
            0 <= i < topics.len() && state.key(#[trigger] topics[i]) == key) by {
        if state.keys(topics).contains(key) {
            let t = choose|t: GossipTopic| #[trigger] topics.to_set().contains(t) && key == f(t);
            let i = choose|i: int| 0 <= i < topics.len() && topics[i] == t;
            assert(state.key(topics[i]) == key);
        }
        if exists|i: int| 0 <= i < topics.len() && state.key(#[trigger] topics[i]) == key {
            let i = choose|i: int| 0 <= i < topics.len() && state.key(#[trigger] topics[i]) == key;
            assert(topics.to_set().contains(topics[i]));
            assert(f(topics[i]) == key);
        }
    }
}

/// Something is published of a list if and only if a message in it was encoded for some kind.
proof fn lemma_publishing_messages<M, P, N: Fn(GossipTopic) -> String>(
    state: BehaviourView<M, P, N>,
    messages: Seq<OutgoingMessage>,
)
    ensures
        state.publications(messages).len() > 0 <==> (exists|i: int|
            0 <= i < messages.len() && (#[trigger] messages[i]).encoded is Ok
                && messages[i].kinds@.len() > 0),
    decreases messages.len(),
{
    if messages.len() > 0 {
        let rest = messages.drop_last();
        lemma_publishing_messages(state, rest);
        lemma_publications_grow(state, messages, messages.len() - 1);
        assert(messages.take(messages.len() - 1) =~= rest);
        if state.publications(rest).len() > 0 {
            let i = choose|i: int|
                0 <= i < rest.len() && (#[trigger] rest[i]).encoded is Ok && rest[i].kinds@.len()
                    > 0;
            assert(messages[i].encoded is Ok && messages[i].kinds@.len() > 0);
        } else if state.publications(messages).len() > 0 {
            assert(messages[messages.len() - 1].encoded is Ok);
        }
        assert forall|i: int|
            0 <= i < messages.len() && (#[trigger] messages[i]).encoded is Ok
                && messages[i].kinds@.len() > 0 implies state.publications(messages).len() > 0 by {
            if i < rest.len() {
                assert(rest[i].encoded is Ok);
            }
        }
    }
}

/// Subscribing to a kind: its topic, in the default encoding and on the current fork, comes last
/// in the list unless it is there, and the gossip protocol is told once, by the topic's name, to
/// join it. The answer is whether the gossip protocol had not joined it.
pub proof fn law_subscribe_kind<M, P, N: Fn(GossipTopic) -> String>(
    behaviour: &mut Behaviour<M, P, N>,
    topic: GossipTopic,
    name: String,
    kind: GossipKind,
    fresh: bool,
)
    requires
        old(behaviour)@.wf(),
        call_ensures(Behaviour::<M, P, N>::subscribe_kind, (behaviour, kind), fresh),
        topic == (GossipTopic {
            kind: kind,
            encoding: GossipEncoding::SSZSnappy,
            fork_digest: old(behaviour)@.enr_fork_id.fork_digest,
        }),
        call_ensures(old(behaviour)@.topic_name, (topic,), name),
    ensures
        final(behaviour)@ == (BehaviourView {
            gossipsub: final(behaviour)@.gossipsub,
            subscriptions: final(behaviour)@.subscriptions,
            ..old(behaviour)@
        }),
        old(behaviour)@.subscriptions.contains(topic) ==> final(behaviour)@.subscriptions
            == old(behaviour)@.subscriptions,
        !old(behaviour)@.subscriptions.contains(topic) ==> final(behaviour)@.subscriptions
            == old(behaviour)@.subscriptions.push(topic),
        joined_by(old(behaviour)@.gossipsub, name@, final(behaviour)@.gossipsub),
        ({
            let key = if old(behaviour)@.settings.hash_topics {
                topic_sha256(name@)
            } else {
                name@
            };
            let joined = joined_topics(old(behaviour)@.gossipsub);
            let joined_after = joined_topics(final(behaviour)@.gossipsub);
            &&& fresh == !joined.contains(key)
            &&& joined.subset_of(joined_after)
            &&& joined_after.subset_of(joined.insert(key))
            &&& old(behaviour)@.settings.mesh_n > 0 ==> joined_after == joined.insert(key)
        }),
        gossip_config(final(behaviour)@.gossipsub) == gossip_config(old(behaviour)@.gossipsub),
        gossip_source(final(behaviour)@.gossipsub) == gossip_source(old(behaviour)@.gossipsub),
        cached_messages(final(behaviour)@.gossipsub) == cached_messages(old(behaviour)@.gossipsub),
{
    let before = old(behaviour)@;
    let key = before.key(topic);
    assert(before.joined().difference(Set::empty()) =~= before.joined());
    assert(before.joined().union(set![key]) =~= before.joined().insert(key));
}

/// Subscribing to a subnet does with the topic of that subnet what subscribing to a kind does.
pub proof fn law_subscribe_to_subnet<M, P, N: Fn(GossipTopic) -> String>(
    behaviour: &mut Behaviour<M, P, N>,
    topic: GossipTopic,
    name: String,
    subnet_id: SubnetId,
    fresh: bool,
)
    requires
        old(behaviour)@.wf(),
        call_ensures(Behaviour::<M, P, N>::subscribe_to_subnet, (behaviour, subnet_id), fresh),
        topic == (GossipTopic {
            kind: GossipKind::CommitteeIndex(subnet_id),
            encoding: GossipEncoding::SSZSnappy,
            fork_digest: old(behaviour)@.enr_fork_id.fork_digest,
        }),
        call_ensures(old(behaviour)@.topic_name, (topic,), name),
    ensures
        final(behaviour)@ == (BehaviourView {
            gossipsub: final(behaviour)@.gossipsub,
            subscriptions: final(behaviour)@.subscriptions,
            ..old(behaviour)@
        }),
        old(behaviour)@.subscriptions.contains(topic) ==> final(behaviour)@.subscriptions
            == old(behaviour)@.subscriptions,
        !old(behaviour)@.subscriptions.contains(topic) ==> final(behaviour)@.subscriptions
            == old(behaviour)@.subscriptions.push(topic),
        joined_by(old(behaviour)@.gossipsub, name@, final(behaviour)@.gossipsub),
        ({
            let key = if old(behaviour)@.settings.hash_topics {
                topic_sha256(name@)
            } else {
                name@
            };
            let joined = joined_topics(old(behaviour)@.gossipsub);
            let joined_after = joined_topics(final(behaviour)@.gossipsub);
            &&& fresh == !joined.contains(key)
            &&& joined.subset_of(joined_after)
            &&& joined_after.subset_of(joined.insert(key))
            &&& old(behaviour)@.settings.mesh_n > 0 ==> joined_after == joined.insert(key)
        }),
        gossip_config(final(behaviour)@.gossipsub) == gossip_config(old(behaviour)@.gossipsub),
        gossip_source(final(behaviour)@.gossipsub) == gossip_source(old(behaviour)@.gossipsub),
        cached_messages(final(behaviour)@.gossipsub) == cached_messages(old(behaviour)@.gossipsub),
{
    let before = old(behaviour)@;
    let key = before.key(topic);
    assert(before.joined().difference(Set::empty()) =~= before.joined());
    assert(before.joined().union(set![key]) =~= before.joined().insert(key));
}

/// Unsubscribing from a kind: its topic, in the default encoding and on the current fork, goes out
/// of the list, and the gossip protocol is told once, by the topic's name, to leave it. The answer
/// is whether the gossip protocol had joined it.
pub proof fn law_unsubscribe_kind<M, P, N: Fn(GossipTopic) -> String>(
    behaviour: &mut Behaviour<M, P, N>,
    topic: GossipTopic,
    name: String,
    kind: GossipKind,
    was_joined: bool,
)
    requires
        old(behaviour)@.wf(),
        call_ensures(Behaviour::<M, P, N>::unsubscribe_kind, (behaviour, kind), was_joined),
        topic == (GossipTopic {
            kind: kind,
            encoding: GossipEncoding::SSZSnappy,
            fork_digest: old(behaviour)@.enr_fork_id.fork_digest,
        }),
        call_ensures(old(behaviour)@.topic_name, (topic,), name),
    ensures
        final(behaviour)@ == (BehaviourView {
            gossipsub: final(behaviour)@.gossipsub,
            subscriptions: final(behaviour)@.subscriptions,
            ..old(behaviour)@
        }),
        !old(behaviour)@.subscriptions.contains(topic) ==> final(behaviour)@.subscriptions
            == old(behaviour)@.subscriptions,
        forall|i: int|
            0 <= i < old(behaviour)@.subscriptions.len()
                && #[trigger] old(behaviour)@.subscriptions[i] == topic
                ==> final(behaviour)@.subscriptions == old(behaviour)@.subscriptions.remove(i),
        left_by(old(behaviour)@.gossipsub, name@, final(behaviour)@.gossipsub),
        ({
            let key = if old(behaviour)@.settings.hash_topics {
                topic_sha256(name@)
            } else {
                name@
            };
            let joined = joined_topics(old(behaviour)@.gossipsub);
            &&& was_joined == joined.contains(key)
            &&& joined_topics(final(behaviour)@.gossipsub) == joined.remove(key)
        }),
        gossip_config(final(behaviour)@.gossipsub) == gossip_config(old(behaviour)@.gossipsub),
        gossip_source(final(behaviour)@.gossipsub) == gossip_source(old(behaviour)@.gossipsub),
        cached_messages(final(behaviour)@.gossipsub) == cached_messages(old(behaviour)@.gossipsub),
{
    let topics = old(behaviour)@.subscriptions;
    assert forall|i: int| 0 <= i < topics.len() && #[trigger] topics[i] == topic
        implies final(behaviour)@.subscriptions
        == topics.remove(i) by {
        assert(topics.contains(topic));
        let at = topics.index_of(topic);
        assert(topics[at] == topic);
        assert(at == i);
    }
}

/// Unsubscribing from a subnet does with the topic of that subnet what unsubscribing from a kind
/// does.
pub proof fn law_unsubscribe_from_subnet<M, P, N: Fn(GossipTopic) -> String>(
    behaviour: &mut Behaviour<M, P, N>,
    topic: GossipTopic,
    name: String,
    subnet_id: SubnetId,
    was_joined: bool,
)
    requires
        old(behaviour)@.wf(),
        call_ensures(
            Behaviour::<M, P, N>::unsubscribe_from_subnet, (behaviour, subnet_id), was_joined,
        ),
        topic == (GossipTopic {
            kind: GossipKind::CommitteeIndex(subnet_id),
            encoding: GossipEncoding::SSZSnappy,
            fork_digest: old(behaviour)@.enr_fork_id.fork_digest,
        }),
        call_ensures(old(behaviour)@.topic_name, (topic,), name),
    ensures
        final(behaviour)@ == (BehaviourView {
            gossipsub: final(behaviour)@.gossipsub,
            subscriptions: final(behaviour)@.subscriptions,
            ..old(behaviour)@
        }),
        !old(behaviour)@.subscriptions.contains(topic) ==> final(behaviour)@.subscriptions
            == old(behaviour)@.subscriptions,
        forall|i: int|
            0 <= i < old(behaviour)@.subscriptions.len()
                && #[trigger] old(behaviour)@.subscriptions[i] == topic
                ==> final(behaviour)@.subscriptions == old(behaviour)@.subscriptions.remove(i),
        left_by(old(behaviour)@.gossipsub, name@, final(behaviour)@.gossipsub),
        ({
            let key = if old(behaviour)@.settings.hash_topics {
                topic_sha256(name@)
            } else {
                name@
            };
            let joined = joined_topics(old(behaviour)@.gossipsub);
            &&& was_joined == joined.contains(key)
            &&& joined_topics(final(behaviour)@.gossipsub) == joined.remove(key)
        }),
        gossip_config(final(behaviour)@.gossipsub) == gossip_config(old(behaviour)@.gossipsub),
        gossip_source(final(behaviour)@.gossipsub) == gossip_source(old(behaviour)@.gossipsub),
        cached_messages(final(behaviour)@.gossipsub) == cached_messages(old(behaviour)@.gossipsub),
{
    let topics = old(behaviour)@.subscriptions;
    assert forall|i: int| 0 <= i < topics.len() && #[trigger] topics[i] == topic
        implies final(behaviour)@.subscriptions
        == topics.remove(i) by {
        assert(topics.contains(topic));
        let at = topics.index_of(topic);
        assert(topics[at] == topic);
        assert(at == i);
    }
}

/// A message that was encoded is published once for each of its kinds, in their order: its data,
/// under the name of the topic of that kind, in the default encoding and on the current fork. Of a
/// message that was not encoded nothing is published.
pub proof fn law_publications_of_a_message<M, P, N: Fn(GossipTopic) -> String>(
    state: BehaviourView<M, P, N>,
    message: OutgoingMessage,
)
    requires
        state.wf(),
    ensures
        match message.encoded {
            Ok(data) => {
                &&& state.publications(seq![message]).len() == message.kinds@.len()
                &&& forall|j: int, name: String|
                    0 <= j < message.kinds@.len() && #[trigger] call_ensures(
                        state.topic_name,
                        (GossipTopic {
                            kind: message.kinds@[j],
                            encoding: GossipEncoding::SSZSnappy,
                            fork_digest: state.enr_fork_id.fork_digest,
                        },),
                        name,
                    ) ==> #[trigger] state.publications(seq![message])[j] == (name@, data@)
            },
            Err(_) => state.publications(seq![message]).len() == 0,
        },
        state.publications(Seq::empty()).len() == 0,
{
    assert(seq![message].drop_last() =~= Seq::empty());
    assert(state.publications(seq![message].drop_last()).len() == 0);
    match message.encoded {
        Ok(data) => {
            let publications = state.publications_of(message.kinds@, data@);
            assert(state.publications(seq![message]) =~= publications);
        },
        Err(_) => {},
    }
}

/// Publishing hands the gossip protocol the publications of the messages, changes nothing else of
/// the behaviour, and leaves what the gossip protocol is subscribed to as it is.
pub proof fn law_publish<M, P, N: Fn(GossipTopic) -> String>(
    behaviour: &mut Behaviour<M, P, N>,
    messages: Vec<OutgoingMessage>,
)
    requires
        call_ensures(Behaviour::<M, P, N>::publish, (behaviour, messages), ()),
    ensures
        final(behaviour)@ == (
            BehaviourView { gossipsub: final(behaviour)@.gossipsub, ..old(behaviour)@ }
        ),
        all_published(
            old(behaviour)@.gossipsub,
            old(behaviour)@.publications(messages@),
            final(behaviour)@.gossipsub,
        ),
        joined_topics(final(behaviour)@.gossipsub) == joined_topics(old(behaviour)@.gossipsub),
        cached_messages(old(behaviour)@.gossipsub).subset_of(cached_messages(final(behaviour)@.gossipsub)),
        gossip_config(final(behaviour)@.gossipsub) == gossip_config(old(behaviour)@.gossipsub),
        gossip_source(final(behaviour)@.gossipsub) == gossip_source(old(behaviour)@.gossipsub),
{
}

/// A message of one kind that was encoded is handed to the gossip protocol once: its data, under
/// the name of the topic of that kind, in the default encoding and on the current fork.
pub proof fn law_publish_one<M, P, N: Fn(GossipTopic) -> String>(
    behaviour: &mut Behaviour<M, P, N>,
    messages: Vec<OutgoingMessage>,
    kind: GossipKind,
    data: Vec<u8>,
    name: String,
)
    requires
        old(behaviour)@.wf(),
        call_ensures(Behaviour::<M, P, N>::publish, (behaviour, messages), ()),
        messages@.len() == 1,
        messages@[0].kinds@ == seq![kind],
        messages@[0].encoded == Ok::<Vec<u8>, String>(data),
        call_ensures(
            old(behaviour)@.topic_name,
            (GossipTopic {
                kind: kind,
                encoding: GossipEncoding::SSZSnappy,
                fork_digest: old(behaviour)@.enr_fork_id.fork_digest,
            },),
            name,
        ),
    ensures
        published(old(behaviour)@.gossipsub, name@, data@, final(behaviour)@.gossipsub),
{
    let before = old(behaviour)@;
    assert(messages@ =~= seq![messages@[0]]);
    law_publications_of_a_message(before, messages@[0]);
    let publications = before.publications(messages@);
    assert(before.publications(seq![messages@[0]])[0] == (name@, data@));
    assert(publications =~= Seq::empty().push((name@, data@)));
    law_publications_are_handed_over(
        before.gossipsub,
        Seq::empty(),
        name@,
        data@,
        final(behaviour)@.gossipsub,
    );
}

/// Publications are handed over one after the other, each of them once.
pub proof fn law_publications_are_handed_over(
    before: Gossipsub,
    publications: Seq<(Seq<char>, Seq<u8>)>,
    name: Seq<char>,
    data: Seq<u8>,
    after: Gossipsub,
)
    ensures
        all_published(before, Seq::empty(), after) <==> after == before,
        all_published(before, publications.push((name, data)), after) <==> (exists|mid: Gossipsub|
            all_published(before, publications, mid)
                && #[trigger] published(mid, name, data, after)),
        publications.len() == 0 ==> (all_published(before, publications.push((name, data)), after)
            <==> published(before, name, data, after)),
{
    let whole = publications.push((name, data));
    assert(whole.drop_last() =~= publications);
    assert(whole.last() == (name, data));
    if publications.len() == 0 && published(before, name, data, after) {
        assert(all_published(before, whole.drop_last(), before));
        assert(published(before, whole.last().0, whole.last().1, after));
    }
    if exists|mid: Gossipsub|
        all_published(before, publications, mid) && #[trigger] published(mid, name, data, after) {
        let mid = choose|mid: Gossipsub|
            all_published(before, publications, mid)
                && #[trigger] published(mid, name, data, after);
        assert(published(mid, whole.last().0, whole.last().1, after));
    }
}

/// Propagating a message tells the gossip protocol once, with the id and the source that were
/// given, and changes nothing else. Nothing at all changes if the message is not in the cache.
pub proof fn law_propagate_message<M, P, N: Fn(GossipTopic) -> String>(
    behaviour: &mut Behaviour<M, P, N>,
    source: &PeerId,
    id: MessageId,
)
    requires
        call_ensures(Behaviour::<M, P, N>::propagate_message, (behaviour, source, id), ()),
    ensures
        final(behaviour)@ == (
            BehaviourView { gossipsub: final(behaviour)@.gossipsub, ..old(behaviour)@ }
        ),
        propagated(old(behaviour)@.gossipsub, id.0@, *source, final(behaviour)@.gossipsub),
        !cached_messages(old(behaviour)@.gossipsub).contains(id.0@) ==> final(behaviour)@
            == old(behaviour)@,
        cached_messages(final(behaviour)@.gossipsub) == cached_messages(old(behaviour)@.gossipsub),
        joined_topics(final(behaviour)@.gossipsub) == joined_topics(old(behaviour)@.gossipsub),
        gossip_config(final(behaviour)@.gossipsub) == gossip_config(old(behaviour)@.gossipsub),
        gossip_source(final(behaviour)@.gossipsub) == gossip_source(old(behaviour)@.gossipsub),
{
}

/// An operation that issues a command puts just that command behind those that wait, and changes
/// nothing else.
pub proof fn law_commands_are_queued<M, P, N: Fn(GossipTopic) -> String>(
    state: BehaviourView<M, P, N>,
    command: Command<P>,
)
    ensures
        state.commanding(command) == (
            BehaviourView { commands: state.commands.push(command), ..state }
        ),
        state.commanding(command).commands.len() == state.commands.len() + 1,
        state.commanding(command).commands.last() == command,
        state.commanding(command).commands.drop_last() == state.commands,
{
    assert(state.commands.push(command).drop_last() =~= state.commands);
}

/// What is to be sent to a peer goes to the RPC protocol as it is.
pub proof fn law_send_rpc<M, P, N: Fn(GossipTopic) -> String>(
    behaviour: &mut Behaviour<M, P, N>,
    peer_id: PeerId,
    event: RPCEvent<P>,
)
    requires
        call_ensures(Behaviour::<M, P, N>::send_rpc, (behaviour, peer_id, event), ()),
    ensures
        final(behaviour)@ == (BehaviourView {
            commands: old(behaviour)@.commands.push(Command::SendRpc(peer_id, event)),
            ..old(behaviour)@
        }),
{
}

/// Discovery is told of the peer that has been banned.
pub proof fn law_peer_banned<M, P, N: Fn(GossipTopic) -> String>(
    behaviour: &mut Behaviour<M, P, N>,
    peer_id: PeerId,
)
    requires
        call_ensures(Behaviour::<M, P, N>::peer_banned, (behaviour, peer_id), ()),
    ensures
        final(behaviour)@ == (BehaviourView {
            commands: old(behaviour)@.commands.push(Command::PeerBanned(peer_id)),
            ..old(behaviour)@
        }),
{
}

/// Discovery is told of the peer that has been unbanned.
pub proof fn law_peer_unbanned<M, P, N: Fn(GossipTopic) -> String>(
    behaviour: &mut Behaviour<M, P, N>,
    peer_id: &PeerId,
)
    requires
        call_ensures(Behaviour::<M, P, N>::peer_unbanned, (behaviour, peer_id), ()),
    ensures
        final(behaviour)@ == (BehaviourView {
            commands: old(behaviour)@.commands.push(Command::PeerUnbanned(*peer_id)),
            ..old(behaviour)@
        }),
{
}

/// The record goes to discovery as it is.
pub proof fn law_add_enr<M, P, N: Fn(GossipTopic) -> String>(
    behaviour: &mut Behaviour<M, P, N>,
    enr: Enr,
)
    requires
        call_ensures(Behaviour::<M, P, N>::add_enr, (behaviour, enr), ()),
    ensures
        final(behaviour)@ == (BehaviourView {
            commands: old(behaviour)@.commands.push(Command::AddEnr(enr)),
            ..old(behaviour)@
        }),
{
}

/// Discovery is told of the subnet, and to set its bit if `value` is true and to clear it if not.
pub proof fn law_update_enr_subnet<M, P, N: Fn(GossipTopic) -> String>(
    behaviour: &mut Behaviour<M, P, N>,
    subnet_id: SubnetId,
    value: bool,
)
    requires
        call_ensures(Behaviour::<M, P, N>::update_enr_subnet, (behaviour, subnet_id, value), ()),
    ensures
        final(behaviour)@ == (BehaviourView {
            commands: old(behaviour)@.commands.push(Command::UpdateEnrBitfield(subnet_id, value)),
            ..old(behaviour)@
        }),
{
}

/// Discovery is told of the subnet that peers are wanted on.
pub proof fn law_peers_request<M, P, N: Fn(GossipTopic) -> String>(
    behaviour: &mut Behaviour<M, P, N>,
    subnet_id: SubnetId,
)
    requires
        call_ensures(Behaviour::<M, P, N>::peers_request, (behaviour, subnet_id), ()),
    ensures
        final(behaviour)@ == (BehaviourView {
            commands: old(behaviour)@.commands.push(Command::PeersRequest(subnet_id)),
            ..old(behaviour)@
        }),
{
}

/// Once discovery has dealt with a subnet, the meta data hold the bitfield of the local record and
/// the next sequence number, whatever the outcome was; nothing else changes.
pub proof fn law_enr_subnet_updated<M, P, N: Fn(GossipTopic) -> String>(
    behaviour: &mut Behaviour<M, P, N>,
    outcome: Result<(), String>,
    attnets: EnrBitfield,
)
    requires
        old(behaviour)@.meta_data.seq_number < u64::MAX,
        call_ensures(Behaviour::<M, P, N>::enr_subnet_updated, (behaviour, outcome, attnets), ()),
    ensures
        final(behaviour)@ == (
            BehaviourView { meta_data: final(behaviour)@.meta_data, ..old(behaviour)@ }
        ),
        final(behaviour)@.meta_data.seq_number == old(behaviour)@.meta_data.seq_number + 1,
        final(behaviour)@.meta_data.attnets == attnets,
{
}

/// The gossip protocol knows a topic by its name, or by the hash of its name where topics are
/// hashed.
pub proof fn law_topic_keys<M, P, N: Fn(GossipTopic) -> String>(
    state: BehaviourView<M, P, N>,
    topic: GossipTopic,
    name: String,
)
    requires
        state.wf(),
        call_ensures(state.topic_name, (topic,), name),
    ensures
        state.settings.hash_topics ==> state.key(topic) == topic_sha256(name@),
        !state.settings.hash_topics ==> state.key(topic) == name@,
{
}

/// Moving to another fork: discovery is told of the fork, the node follows it, and the topics in
/// the list are those of before, each of the same kind and encoding but on the new fork. The
/// gossip protocol has left all topics of the old list and, if topics are shared with peers at
/// all, joined those of the new one, and nothing else. Nothing else changes.
pub proof fn law_update_fork_version<M, P, N: Fn(GossipTopic) -> String>(
    behaviour: &mut Behaviour<M, P, N>,
    enr_fork_id: EnrForkId,
)
    requires
        old(behaviour)@.wf(),
        call_ensures(Behaviour::<M, P, N>::update_fork_version, (behaviour, enr_fork_id), ()),
    ensures
        final(behaviour)@ == (BehaviourView {
            gossipsub: final(behaviour)@.gossipsub,
            subscriptions: final(behaviour)@.subscriptions,
            commands: old(behaviour)@.commands.push(Command::UpdateEth2Enr(enr_fork_id)),
            enr_fork_id,
            ..old(behaviour)@
        }),
        final(behaviour)@.subscriptions.no_duplicates(),
        forall|topic: GossipTopic| #[trigger]
            final(behaviour)@.subscriptions.contains(topic) <==> topic.fork_digest
                == enr_fork_id.fork_digest
                && (exists|i: int|
                0 <= i < old(behaviour)@.subscriptions.len()
                    && (#[trigger] old(behaviour)@.subscriptions[i]).kind
                    == topic.kind && old(behaviour)@.subscriptions[i].encoding == topic.encoding),
        forall|key: Seq<char>|
            old(behaviour)@.settings.mesh_n > 0 ==> (#[trigger] joined_topics(final(behaviour)@.gossipsub).contains(
                key,
            ) <==> (joined_topics(old(behaviour)@.gossipsub).contains(key) && !(exists|i: int|
                0 <= i < old(behaviour)@.subscriptions.len() && old(behaviour)@.key(
                    #[trigger] old(behaviour)@.subscriptions[i],
                ) == key)) || (exists|i: int|
                0 <= i < final(behaviour)@.subscriptions.len() && old(behaviour)@.key(
                    #[trigger] final(behaviour)@.subscriptions[i],
                ) == key)),
        forall|key: Seq<char>|
            joined_topics(old(behaviour)@.gossipsub).contains(key) && !(exists|i: int|
                0 <= i < old(behaviour)@.subscriptions.len() && old(behaviour)@.key(
                    #[trigger] old(behaviour)@.subscriptions[i],
                ) == key) ==> #[trigger] joined_topics(final(behaviour)@.gossipsub).contains(key),
        forall|key: Seq<char>| #[trigger]
            joined_topics(final(behaviour)@.gossipsub).contains(key) ==> (joined_topics(
                old(behaviour)@.gossipsub,
            ).contains(key) && !(exists|i: int|
                0 <= i < old(behaviour)@.subscriptions.len() && old(behaviour)@.key(
                    #[trigger] old(behaviour)@.subscriptions[i],
                ) == key)) || (exists|i: int|
                0 <= i < final(behaviour)@.subscriptions.len() && old(behaviour)@.key(
                    #[trigger] final(behaviour)@.subscriptions[i],
                ) == key),
        all_called(
            old(behaviour)@.gossipsub,
            leave_calls(old(behaviour)@.topic_name, old(behaviour)@.subscriptions) + join_calls(
                old(behaviour)@.topic_name,
                old(behaviour)@.subscriptions,
                enr_fork_id.fork_digest,
            ),
            final(behaviour)@.gossipsub,
        ),
        gossip_config(final(behaviour)@.gossipsub) == gossip_config(old(behaviour)@.gossipsub),
        gossip_source(final(behaviour)@.gossipsub) == gossip_source(old(behaviour)@.gossipsub),
        cached_messages(final(behaviour)@.gossipsub) == cached_messages(old(behaviour)@.gossipsub),
{
    let before = old(behaviour)@;
    let after = final(behaviour)@;
    let digest = enr_fork_id.fork_digest;
    law_fork_moves_all_subscriptions(before, enr_fork_id, after);
    assert forall|topic: GossipTopic| #[trigger]
        after.subscriptions.contains(topic) <==> topic.fork_digest == digest && (exists|i: int|
        0 <= i < before.subscriptions.len() && (#[trigger] before.subscriptions[i]).kind
            == topic.kind
            && before.subscriptions[i].encoding == topic.encoding) by {
        if after.subscriptions.contains(topic) {
            let old_topic = choose|t: GossipTopic|
                before.subscriptions.contains(t) && topic == #[trigger] t.on_fork(digest);
            let i = choose|i: int| 0 <= i < before.subscriptions.len() && before.subscriptions[i]
                == old_topic;
            assert(before.subscriptions[i].kind == topic.kind);
        }
        if topic.fork_digest == digest && (exists|i: int|
            0 <= i < before.subscriptions.len() && (#[trigger] before.subscriptions[i]).kind
                == topic.kind && before.subscriptions[i].encoding == topic.encoding) {
            let i = choose|i: int|
                0 <= i < before.subscriptions.len() && (#[trigger] before.subscriptions[i]).kind
                    == topic.kind && before.subscriptions[i].encoding == topic.encoding;
            let old_topic = before.subscriptions[i];
            assert(before.subscriptions.contains(old_topic));
            assert(old_topic.on_fork(digest) == topic);
        }
    }
    lemma_keys_listed(before, before.subscriptions);
    lemma_keys_listed(before, after.subscriptions);
}

/// On a move to another fork the gossip protocol is told to leave each topic by its name, and to
/// join each by the name of the topic of the same kind and encoding on the new fork.
pub proof fn law_calls_on_a_fork_move<M, P, N: Fn(GossipTopic) -> String>(
    state: BehaviourView<M, P, N>,
    fork_digest: [u8; 4],
    i: int,
    name: String,
    moved_name: String,
)
    requires
        state.wf(),
        0 <= i < state.subscriptions.len(),
        call_ensures(state.topic_name, (state.subscriptions[i],), name),
        call_ensures(
            state.topic_name,
            (GossipTopic {
                kind: state.subscriptions[i].kind,
                encoding: state.subscriptions[i].encoding,
                fork_digest,
            },),
            moved_name,
        ),
    ensures
        leave_calls(state.topic_name, state.subscriptions).len() == state.subscriptions.len(),
        leave_calls(state.topic_name, state.subscriptions)[i] == TopicCall::Leave(name@),
        join_calls(state.topic_name, state.subscriptions, fork_digest).len()
            == state.subscriptions.len(),
        join_calls(state.topic_name, state.subscriptions, fork_digest)[i] == TopicCall::Join(
            moved_name@,
        ),
{
}

/// What the gossip protocol is told about topics it is told one after the other, each once: to
/// leave a topic, or to join it.
pub proof fn law_calls_are_made(
    before: Gossipsub,
    calls: Seq<TopicCall>,
    call: TopicCall,
    after: Gossipsub,
)
    ensures
        all_called(before, Seq::empty(), after) <==> after == before,
        all_called(before, calls.push(call), after) <==> (exists|mid: Gossipsub|
            all_called(before, calls, mid) && #[trigger] called(mid, call, after)),
        called(before, call, after) <==> match call {
            TopicCall::Leave(name) => left_by(before, name, after),
            TopicCall::Join(name) => joined_by(before, name, after),
        },
{
    let whole = calls.push(call);
    assert(whole.drop_last() =~= calls);
    assert(whole.last() == call);
    if exists|mid: Gossipsub| all_called(before, calls, mid) && #[trigger] called(mid, call, after) {
        let mid = choose|mid: Gossipsub|
            all_called(before, calls, mid) && #[trigger] called(mid, call, after);
        assert(called(mid, whole.last(), after));
    }
}

/// Taking the list of subscriptions anew: it holds the topics that were given, each once, and is
/// what was given if that has no repetitions; nothing else changes.
pub proof fn law_load_subscriptions<M, P, N: Fn(GossipTopic) -> String>(
    behaviour: &mut Behaviour<M, P, N>,
    topics: &Vec<GossipTopic>,
)
    requires
        call_ensures(Behaviour::<M, P, N>::load_subscriptions, (behaviour, topics), ()),
    ensures
        final(behaviour)@ == (
            BehaviourView { subscriptions: final(behaviour)@.subscriptions, ..old(behaviour)@ }
        ),
        final(behaviour)@.subscriptions.no_duplicates(),
        forall|topic: GossipTopic| #[trigger]
            final(behaviour)@.subscriptions.contains(topic) <==> topics@.contains(topic),
        topics@.no_duplicates() ==> final(behaviour)@.subscriptions == topics@,
{
    lemma_distinct(topics@);
    assert forall|topic: GossipTopic| #[trigger]
        final(behaviour)@.subscriptions.contains(topic) <==> topics@.contains(topic) by {
        assert(final(behaviour)@.subscriptions.to_set().contains(topic) <==> topics@.to_set().contains(
            topic,
        ));
    }
}

/// What a behaviour is set up with: the configuration and the names that were given, no event and
/// no command, the first sequence number, room for a hundred thousand message ids, and the topics
/// that were given.
pub proof fn law_new<M, P, N: Fn(GossipTopic) -> String>(
    local_key: &Keypair,
    gs_config: GossipsubConfig,
    agent_version: String,
    enr_fork_id: EnrForkId,
    attnets: EnrBitfield,
    topics: Vec<GossipTopic>,
    topic_name: N,
    behaviour: Behaviour<M, P, N>,
)
    requires
        call_ensures(
            Behaviour::<M, P, N>::new,
            (local_key, gs_config, agent_version, enr_fork_id, attnets, topics, topic_name),
            behaviour,
        ),
    ensures
        behaviour@.wf(),
        gossip_config(behaviour@.gossipsub) == gs_config,
        behaviour@.settings == config_settings(gs_config),
        joined_topics(behaviour@.gossipsub) == Set::<Seq<char>>::empty(),
        cached_messages(behaviour@.gossipsub) == Set::<Seq<char>>::empty(),
        !config_settings(gs_config).no_source_id ==> gossip_source(behaviour@.gossipsub)
            == public_key_peer_id(keypair_public(*local_key)),
        identify_protocol_version(behaviour@.identify) == "lighthouse/libp2p"@,
        identify_agent_version(behaviour@.identify) == agent_version@,
        identify_public_key(behaviour@.identify) == keypair_public(*local_key),
        behaviour@.events.len() == 0,
        behaviour@.commands.len() == 0,
        behaviour@.meta_data.seq_number == 1,
        behaviour@.meta_data.attnets == attnets,
        behaviour@.seen.len() == 0,
        behaviour@.seen_capacity == 100_000,
        forall|topic: GossipTopic| #[trigger]
            behaviour@.subscriptions.contains(topic) <==> topics@.contains(topic),
        topics@.no_duplicates() ==> behaviour@.subscriptions == topics@,
        behaviour@.enr_fork_id == enr_fork_id,
        behaviour@.topic_name == topic_name,
{
    lemma_distinct(topics@);
    assert forall|topic: GossipTopic| #[trigger]
        behaviour@.subscriptions.contains(topic) <==> topics@.contains(topic) by {
        assert(behaviour@.subscriptions.to_set().contains(topic) <==> topics@.to_set().contains(
            topic,
        ));
    }
}

/// What well-formed states are: the ids that are remembered are distinct and no more than there is
/// room for, no topic is listed twice, the parameters are those of the gossip protocol, and each
/// topic has a name, and only one.
pub proof fn law_well_formed<M, P, N: Fn(GossipTopic) -> String>(
    state: BehaviourView<M, P, N>,
)
    ensures
        state.wf() <==> {
            &&& 0 < state.seen_capacity
            &&& state.seen.len() <= state.seen_capacity
            &&& state.seen.no_duplicates()
            &&& state.subscriptions.no_duplicates()
            &&& config_settings(gossip_config(state.gossipsub)) == state.settings
            &&& forall|topic: GossipTopic| #[trigger] call_requires(state.topic_name, (topic,))
            &&& forall|topic: GossipTopic, a: String, b: String| #[trigger]
                call_ensures(state.topic_name, (topic,), a) && #[trigger] call_ensures(
                    state.topic_name,
                    (topic,),
                    b,
                ) ==> a@ == b@
        },
{
    let f = state.topic_name;
    if forall|topic: GossipTopic, a: String, b: String| #[trigger]
        call_ensures(f, (topic,), a) && #[trigger] call_ensures(f, (topic,), b) ==> a@ == b@ {
        assert forall|topic: GossipTopic, name: String| #[trigger]
            call_ensures(f, (topic,), name) implies name@ == name_of(f, topic) by {
            let chosen = choose|chosen: String| call_ensures(f, (topic,), chosen);
            assert(call_ensures(f, (topic,), chosen));
        }
    }
}

/// A gossip message that can be decoded and whose id is not remembered is handed on, last in the
/// queue and as it came; its id becomes the latest, and if there was no room for it the oldest one
/// goes. A peer's subscription is handed on, and the end of one is not. Nothing else changes.
pub proof fn law_on_gossip_event<M, P, N: Fn(GossipTopic) -> String>(
    behaviour: &mut Behaviour<M, P, N>,
    event: GossipsubEvent<M>,
)
    requires
        old(behaviour)@.wf(),
        call_ensures(Behaviour::<M, P, N>::on_gossip_event, (behaviour, event), ()),
    ensures
        match event {
            GossipsubEvent::Message { propagation_source, id, topics, decoded } => {
                &&& final(behaviour)@ == (BehaviourView {
                    events: final(behaviour)@.events,
                    seen: final(behaviour)@.seen,
                    ..old(behaviour)@
                })
                &&& final(behaviour)@.events == match decoded {
                    Ok(message) if !old(behaviour)@.seen.contains(id.0@) => old(behaviour)@.events.push(
                        BehaviourEvent::PubsubMessage {
                            id,
                            source: propagation_source,
                            topics,
                            message,
                        },
                    ),
                    _ => old(behaviour)@.events,
                }
                &&& !old(behaviour)@.seen.contains(id.0@)
                && old(behaviour)@.seen.len() < old(behaviour)@.seen_capacity
                    ==> final(behaviour)@.seen == seq![id.0@] + old(behaviour)@.seen
                &&& !old(behaviour)@.seen.contains(id.0@) && old(behaviour)@.seen.len()
                == old(behaviour)@.seen_capacity
                    ==> final(behaviour)@.seen == seq![id.0@] + old(behaviour)@.seen.drop_last()
                &&& forall|i: int|
                    0 <= i < old(behaviour)@.seen.len() && #[trigger] old(behaviour)@.seen[i]
                        == id.0@ ==> final(behaviour)@.seen
                        == seq![id.0@] + old(behaviour)@.seen.remove(i)
            },
            GossipsubEvent::Subscribed { peer_id, topic } => final(behaviour)@ == (BehaviourView {
                events: old(behaviour)@.events.push(BehaviourEvent::PeerSubscribed(peer_id, topic)),
                ..old(behaviour)@
            }),
            GossipsubEvent::Unsubscribed { .. } => final(behaviour)@ == old(behaviour)@,
        },
{
    let before = old(behaviour)@;
    let after = final(behaviour)@;
    match event {
        GossipsubEvent::Message { propagation_source, id, topics, decoded } => {
            assert forall|i: int| 0 <= i < before.seen.len() && #[trigger] before.seen[i]
                == id.0@ implies after.seen == seq![id.0@] + before.seen.remove(i) by {
                assert(before.seen.contains(id.0@));
                before.seen.index_of_first_ensures(id.0@);
                assert(before.seen.index_of_first(id.0@).unwrap() == i);
            }
            match decoded {
                Ok(message) if !before.seen.contains(id.0@) => {
                    assert(after.events =~= before.events.push(
                        BehaviourEvent::PubsubMessage {
                            id,
                            source: propagation_source,
                            topics,
                            message,
                        },
                    ));
                },
                _ => {
                    assert(after.events =~= before.events);
                },
            }
        },
        GossipsubEvent::Subscribed { peer_id, topic } => {
            assert(after.events =~= before.events.push(
                BehaviourEvent::PeerSubscribed(peer_id, topic),
            ));
        },
        GossipsubEvent::Unsubscribed { .. } => {
            assert(after.events =~= before.events);
        },
    }
}

/// What comes of an RPC event. A ping is reported to the peer manager and answered with our
/// sequence number; a request for our meta data is answered with our meta data; the answers to
/// both go to the peer manager. A status is reported to the peer manager and handed on, and so is
/// an error; everything else is handed on. Answers go to the peer that asked, under the id of the
/// request, and nothing else changes.
pub proof fn law_on_rpc_event<M, P, N: Fn(GossipTopic) -> String>(
    behaviour: &mut Behaviour<M, P, N>,
    message: RPCMessage<P>,
)
    requires
        call_ensures(Behaviour::<M, P, N>::on_rpc_event, (behaviour, message), ()),
    ensures
        ({
            let peer_id = message.peer_id;
            match message.event {
                RPCEvent::Request(id, RPCRequest::Ping(ping)) => final(behaviour)@ == (
                    BehaviourView {
                        commands: old(behaviour)@.commands.push(Command::PingRequest(peer_id, ping.data)).push(
                            Command::SendRpc(
                                peer_id,
                                RPCEvent::Response(
                                    id,
                                    RPCCodedResponse::Success(
                                        RPCResponse::Pong(
                                            Ping { data: old(behaviour)@.meta_data.seq_number },
                                        ),
                                    ),
                                ),
                            ),
                        ),
                        ..old(behaviour)@
                    }
                ),
                RPCEvent::Request(id, RPCRequest::MetaData) => final(behaviour)@ == (
                    BehaviourView {
                        commands: old(behaviour)@.commands.push(
                            Command::SendRpc(
                                peer_id,
                                RPCEvent::Response(
                                    id,
                                    RPCCodedResponse::Success(
                                        RPCResponse::MetaData(
                                            MetaData {
                                                seq_number: old(behaviour)@.meta_data.seq_number,
                                                attnets: old(behaviour)@.meta_data.attnets,
                                            },
                                        ),
                                    ),
                                ),
                            ),
                        ),
                        ..old(behaviour)@
                    }
                ),
                RPCEvent::Request(id, RPCRequest::Status(status)) => final(behaviour)@ == (
                    BehaviourView {
                        events: old(behaviour)@.events.push(
                            BehaviourEvent::RPC(
                                peer_id,
                                RPCEvent::Request(id, RPCRequest::Status(status)),
                            ),
                        ),
                        commands: old(behaviour)@.commands.push(Command::PeerStatusd(peer_id)),
                        ..old(behaviour)@
                    }
                ),
                RPCEvent::Request(id, RPCRequest::Other(content)) => final(behaviour)@ == (
                    BehaviourView {
                        events: old(behaviour)@.events.push(
                            BehaviourEvent::RPC(
                                peer_id,
                                RPCEvent::Request(id, RPCRequest::Other(content)),
                            ),
                        ),
                        ..old(behaviour)@
                    }
                ),
                RPCEvent::Response(_, RPCCodedResponse::Success(RPCResponse::Pong(ping))) => final(behaviour)@ == (
                    BehaviourView {
                        commands: old(behaviour)@.commands.push(Command::PongResponse(peer_id, ping.data)),
                        ..old(behaviour)@
                    }
                ),
                RPCEvent::Response(_, RPCCodedResponse::Success(RPCResponse::MetaData(theirs))) => final(behaviour)@ == (
                    BehaviourView {
                        commands: old(behaviour)@.commands.push(Command::MetaDataResponse(peer_id, theirs)),
                        ..old(behaviour)@
                    }
                ),
                RPCEvent::Response(id, RPCCodedResponse::Success(RPCResponse::Status(status))) => final(behaviour)@ == (
                    BehaviourView {
                        events: old(behaviour)@.events.push(
                            BehaviourEvent::RPC(
                                peer_id,
                                RPCEvent::Response(
                                    id,
                                    RPCCodedResponse::Success(RPCResponse::Status(status)),
                                ),
                            ),
                        ),
                        commands: old(behaviour)@.commands.push(Command::PeerStatusd(peer_id)),
                        ..old(behaviour)@
                    }
                ),
                RPCEvent::Response(id, RPCCodedResponse::Success(RPCResponse::Other(content))) => final(behaviour)@ == (
                    BehaviourView {
                        events: old(behaviour)@.events.push(
                            BehaviourEvent::RPC(
                                peer_id,
                                RPCEvent::Response(
                                    id,
                                    RPCCodedResponse::Success(RPCResponse::Other(content)),
                                ),
                            ),
                        ),
                        ..old(behaviour)@
                    }
                ),
                RPCEvent::Response(id, RPCCodedResponse::Other(content)) => final(behaviour)@ == (
                    BehaviourView {
                        events: old(behaviour)@.events.push(
                            BehaviourEvent::RPC(
                                peer_id,
                                RPCEvent::Response(id, RPCCodedResponse::Other(content)),
                            ),
                        ),
                        ..old(behaviour)@
                    }
                ),
                RPCEvent::Error(id, protocol, error) => final(behaviour)@ == (
                    BehaviourView {
                        events: old(behaviour)@.events.push(
                            BehaviourEvent::RPC(peer_id, RPCEvent::Error(id, protocol, error)),
                        ),
                        commands: old(behaviour)@.commands.push(
                            Command::HandleRpcError(peer_id, protocol, error),
                        ),
                        ..old(behaviour)@
                    }
                ),
            }
        }),
{
    let peer_id = message.peer_id;
    match message.event {
        RPCEvent::Request(id, RPCRequest::Ping(ping)) => {
            assert(
                final(behaviour)@ =~= (
                    BehaviourView {
                        commands: old(behaviour)@.commands.push(Command::PingRequest(peer_id, ping.data)).push(
                            Command::SendRpc(
                                peer_id,
                                RPCEvent::Response(
                                    id,
                                    RPCCodedResponse::Success(
                                        RPCResponse::Pong(
                                            Ping { data: old(behaviour)@.meta_data.seq_number },
                                        ),
                                    ),
                                ),
                            ),
                        ),
                        ..old(behaviour)@
                    }
                )
            );
        },
        RPCEvent::Request(id, RPCRequest::MetaData) => {
            assert(
                final(behaviour)@ =~= (
                    BehaviourView {
                        commands: old(behaviour)@.commands.push(
                            Command::SendRpc(
                                peer_id,
                                RPCEvent::Response(
                                    id,
                                    RPCCodedResponse::Success(
                                        RPCResponse::MetaData(
                                            MetaData {
                                                seq_number: old(behaviour)@.meta_data.seq_number,
                                                attnets: old(behaviour)@.meta_data.attnets,
                                            },
                                        ),
                                    ),
                                ),
                            ),
                        ),
                        ..old(behaviour)@
                    }
                )
            );
        },
        RPCEvent::Request(id, RPCRequest::Status(status)) => {
            assert(
                final(behaviour)@ =~= (
                    BehaviourView {
                        events: old(behaviour)@.events.push(
                            BehaviourEvent::RPC(
                                peer_id,
                                RPCEvent::Request(id, RPCRequest::Status(status)),
                            ),
                        ),
                        commands: old(behaviour)@.commands.push(Command::PeerStatusd(peer_id)),
                        ..old(behaviour)@
                    }
                )
            );
        },
        RPCEvent::Request(id, RPCRequest::Other(content)) => {
            assert(
                final(behaviour)@ =~= (
                    BehaviourView {
                        events: old(behaviour)@.events.push(
                            BehaviourEvent::RPC(
                                peer_id,
                                RPCEvent::Request(id, RPCRequest::Other(content)),
                            ),
                        ),
                        ..old(behaviour)@
                    }
                )
            );
        },
        RPCEvent::Response(_, RPCCodedResponse::Success(RPCResponse::Pong(ping))) => {
            assert(
                final(behaviour)@ =~= (
                    BehaviourView {
                        commands: old(behaviour)@.commands.push(Command::PongResponse(peer_id, ping.data)),
                        ..old(behaviour)@
                    }
                )
            );
        },
        RPCEvent::Response(_, RPCCodedResponse::Success(RPCResponse::MetaData(theirs))) => {
            assert(
                final(behaviour)@ =~= (
                    BehaviourView {
                        commands: old(behaviour)@.commands.push(Command::MetaDataResponse(peer_id, theirs)),
                        ..old(behaviour)@
                    }
                )
            );
        },
        RPCEvent::Response(id, RPCCodedResponse::Success(RPCResponse::Status(status))) => {
            assert(
                final(behaviour)@ =~= (
                    BehaviourView {
                        events: old(behaviour)@.events.push(
                            BehaviourEvent::RPC(
                                peer_id,
                                RPCEvent::Response(
                                    id,
                                    RPCCodedResponse::Success(RPCResponse::Status(status)),
                                ),
                            ),
                        ),
                        commands: old(behaviour)@.commands.push(Command::PeerStatusd(peer_id)),
                        ..old(behaviour)@
                    }
                )
            );
        },
        RPCEvent::Response(id, RPCCodedResponse::Success(RPCResponse::Other(content))) => {
            assert(
                final(behaviour)@ =~= (
                    BehaviourView {
                        events: old(behaviour)@.events.push(
                            BehaviourEvent::RPC(
                                peer_id,
                                RPCEvent::Response(
                                    id,
                                    RPCCodedResponse::Success(RPCResponse::Other(content)),
                                ),
                            ),
                        ),
                        ..old(behaviour)@
                    }
                )
            );
        },
        RPCEvent::Response(id, RPCCodedResponse::Other(content)) => {
            assert(
                final(behaviour)@ =~= (
                    BehaviourView {
                        events: old(behaviour)@.events.push(
                            BehaviourEvent::RPC(
                                peer_id,
                                RPCEvent::Response(id, RPCCodedResponse::Other(content)),
                            ),
                        ),
                        ..old(behaviour)@
                    }
                )
            );
        },
        RPCEvent::Error(id, protocol, error) => {
            assert(
                final(behaviour)@ =~= (
                    BehaviourView {
                        events: old(behaviour)@.events.push(
                            BehaviourEvent::RPC(peer_id, RPCEvent::Error(id, protocol, error)),
                        ),
                        commands: old(behaviour)@.commands.push(
                            Command::HandleRpcError(peer_id, protocol, error),
                        ),
                        ..old(behaviour)@
                    }
                )
            );
        },
    }
}

/// The peer manager is told of a peer that identified itself, with the first ten of its addresses
/// and all else as it came. The other events of the identify protocol change nothing.
pub proof fn law_on_identify_event<M, P, N: Fn(GossipTopic) -> String>(
    behaviour: &mut Behaviour<M, P, N>,
    event: IdentifyEvent,
)
    requires
        call_ensures(Behaviour::<M, P, N>::on_identify_event, (behaviour, event), ()),
    ensures
        match event {
            IdentifyEvent::Received { peer_id, info, .. } => {
                &&& final(behaviour)@ == (
                    BehaviourView { commands: final(behaviour)@.commands, ..old(behaviour)@ }
                )
                &&& final(behaviour)@.commands.len() == old(behaviour)@.commands.len() + 1
                &&& final(behaviour)@.commands.drop_last() == old(behaviour)@.commands
                &&& final(behaviour)@.commands.last() matches Command::Identify(peer, kept)
                &&& peer == peer_id
                &&& kept.public_key == info.public_key
                &&& kept.protocol_version == info.protocol_version
                &&& kept.agent_version == info.agent_version
                &&& kept.protocols == info.protocols
                &&& kept.listen_addrs@ == if info.listen_addrs@.len() > 10 {
                    info.listen_addrs@.take(10)
                } else {
                    info.listen_addrs@
                }
            },
            _ => final(behaviour)@ == old(behaviour)@,
        },
{
    if let IdentifyEvent::Received { peer_id, info, .. } = event {
        assert(final(behaviour)@.commands.drop_last() =~= old(behaviour)@.commands);
        assert(info.listen_addrs@.take(info.listen_addrs@.len() as int) =~= info.listen_addrs@);
    }
}

/// The events of discovery change nothing.
pub proof fn law_on_discovery_event<M, P, N: Fn(GossipTopic) -> String>(
    behaviour: &mut Behaviour<M, P, N>,
    event: DiscoveryEvent,
)
    requires
        call_ensures(Behaviour::<M, P, N>::on_discovery_event, (behaviour, event), ()),
    ensures
        final(behaviour)@ == old(behaviour)@,
{
}

/// A status that the peer manager asks for is handed out at once. A ping that it asks for is sent
/// with our sequence number, and a request for meta data is sent. Nothing else changes, and the
/// other events change nothing.
pub proof fn law_on_peer_manager_event<M, P, N: Fn(GossipTopic) -> String>(
    behaviour: &mut Behaviour<M, P, N>,
    event: PeerManagerEvent,
    handed_out: Option<BehaviourEvent<M, P>>,
)
    requires
        call_ensures(Behaviour::<M, P, N>::on_peer_manager_event, (behaviour, event), handed_out),
    ensures
        match event {
            PeerManagerEvent::Status(peer_id) => handed_out
                == Some(BehaviourEvent::<M, P>::StatusPeer(peer_id)) && final(behaviour)@
                == old(behaviour)@,
            PeerManagerEvent::Ping(peer_id) => handed_out is None && final(behaviour)@ == (
                BehaviourView {
                    commands: old(behaviour)@.commands.push(
                        Command::SendRpc(
                            peer_id,
                            RPCEvent::Request(
                                0,
                                RPCRequest::Ping(
                                    Ping { data: old(behaviour)@.meta_data.seq_number },
                                ),
                            ),
                        ),
                    ),
                    ..old(behaviour)@
                }
            ),
            PeerManagerEvent::MetaData(peer_id) => handed_out is None && final(behaviour)@ == (
                BehaviourView {
                    commands: old(behaviour)@.commands.push(
                        Command::SendRpc(peer_id, RPCEvent::Request(0, RPCRequest::MetaData)),
                    ),
                    ..old(behaviour)@
                }
            ),
            PeerManagerEvent::DisconnectPeer(_) => handed_out is None && final(behaviour)@
                == old(behaviour)@,
            PeerManagerEvent::BanPeer(_) => handed_out is None && final(behaviour)@
                == old(behaviour)@,
        },
{
    match event {
        PeerManagerEvent::Ping(peer_id) => {
            assert(
                final(behaviour)@ =~= (
                    BehaviourView {
                        commands: old(behaviour)@.commands.push(
                            Command::SendRpc(
                                peer_id,
                                RPCEvent::Request(
                                    0,
                                    RPCRequest::Ping(
                                        Ping { data: old(behaviour)@.meta_data.seq_number },
                                    ),
                                ),
                            ),
                        ),
                        ..old(behaviour)@
                    }
                )
            );
        },
        PeerManagerEvent::MetaData(peer_id) => {
            assert(
                final(behaviour)@ =~= (
                    BehaviourView {
                        commands: old(behaviour)@.commands.push(
                            Command::SendRpc(peer_id, RPCEvent::Request(0, RPCRequest::MetaData)),
                        ),
                        ..old(behaviour)@
                    }
                )
            );
        },
        _ => { assert(final(behaviour)@ =~= old(behaviour)@); },
    }
}

/// The oldest of the events that wait is taken, and the others stay as they are.
pub proof fn law_next_event<M, P, N: Fn(GossipTopic) -> String>(
    behaviour: &mut Behaviour<M, P, N>,
    event: Option<BehaviourEvent<M, P>>,
)
    requires
        call_ensures(Behaviour::<M, P, N>::next_event, (behaviour,), event),
    ensures
        event is None <==> old(behaviour)@.events.len() == 0,
        event is None ==> final(behaviour)@ == old(behaviour)@,
        event matches Some(oldest) ==> old(behaviour)@.events
            == seq![oldest] + final(behaviour)@.events
            && final(behaviour)@ == (
                BehaviourView { events: final(behaviour)@.events, ..old(behaviour)@ }
            ),
{
    if event is Some {
        assert(old(behaviour)@.events =~= seq![event->0] + final(behaviour)@.events);
    }
}

/// The oldest of the commands that wait is taken, and the others stay as they are.
pub proof fn law_next_command<M, P, N: Fn(GossipTopic) -> String>(
    behaviour: &mut Behaviour<M, P, N>,
    command: Option<Command<P>>,
)
    requires
        call_ensures(Behaviour::<M, P, N>::next_command, (behaviour,), command),
    ensures
        command is None <==> old(behaviour)@.commands.len() == 0,
        command is None ==> final(behaviour)@ == old(behaviour)@,
        command matches Some(oldest) ==> old(behaviour)@.commands
            == seq![oldest] + final(behaviour)@.commands
            && final(behaviour)@ == (
                BehaviourView { commands: final(behaviour)@.commands, ..old(behaviour)@ }
            ),
{
    if command is Some {
        assert(old(behaviour)@.commands =~= seq![command->0] + final(behaviour)@.commands);
    }
}

/// A request of the gossip protocol is the answer to the swarm, as it came: one about addresses
/// unchanged, and an event for a connection handler for the same peer and handler, marked as being
/// for that protocol. If the protocol has nothing as yet, the next part is polled. Nothing
/// changes.
pub proof fn law_poll_gossipsub_requests<M, P, N: Fn(GossipTopic) -> String, G, R, I, D>(
    behaviour: &mut Behaviour<M, P, N>,
    request: SwarmRequest<G>,
    step: PollStep<M, P, G, R, I, D>,
)
    ensures
        call_ensures(Behaviour::<M, P, N>::poll::<G, R, I, D>, (behaviour, PartPolled::Gossipsub(Polled::Ready(SwarmAction::Request(request)))), step) ==> final(behaviour)@ == old(behaviour)@ && match request {
            SwarmRequest::Address(AddressRequest::DialAddress { address }) => step == PollStep::<M, P, G, R, I, D>::Answer(
                Polled::Ready(
                    SwarmAction::Request(
                        SwarmRequest::Address(AddressRequest::DialAddress { address }),
                    ),
                ),
            ),
            SwarmRequest::Address(AddressRequest::DialPeer { peer_id, condition }) => step == PollStep::<M, P, G, R, I, D>::Answer(
                Polled::Ready(
                    SwarmAction::Request(
                        SwarmRequest::Address(AddressRequest::DialPeer { peer_id, condition }),
                    ),
                ),
            ),
            SwarmRequest::Address(AddressRequest::ReportObservedAddr { address }) => step == PollStep::<M, P, G, R, I, D>::Answer(
                Polled::Ready(
                    SwarmAction::Request(
                        SwarmRequest::Address(AddressRequest::ReportObservedAddr { address }),
                    ),
                ),
            ),
            SwarmRequest::NotifyHandler { peer_id, handler, event } => step == PollStep::<M, P, G, R, I, D>::Answer(
                Polled::Ready(
                    SwarmAction::Request(
                        SwarmRequest::NotifyHandler {
                            peer_id,
                            handler,
                            event: BehaviourHandlerIn::Delegate(DelegateIn::Gossipsub(event)),
                        },
                    ),
                ),
            ),
        },
        call_ensures(
            Behaviour::<M, P, N>::poll::<G, R, I, D>, (
                behaviour,
                PartPolled::Gossipsub(Polled::Pending),
            ), step,
        ) ==> final(behaviour)@ == old(behaviour)@
            && step == PollStep::<M, P, G, R, I, D>::Poll(Stage::Rpc),
{
}

/// A request of the RPC protocol is the answer to the swarm, as it came: one about addresses
/// unchanged, and an event for a connection handler for the same peer and handler, marked as being
/// for that protocol. If the protocol has nothing as yet, the next part is polled. Nothing
/// changes.
pub proof fn law_poll_rpc_requests<M, P, N: Fn(GossipTopic) -> String, G, R, I, D>(
    behaviour: &mut Behaviour<M, P, N>,
    request: SwarmRequest<R>,
    step: PollStep<M, P, G, R, I, D>,
)
    ensures
        call_ensures(Behaviour::<M, P, N>::poll::<G, R, I, D>, (behaviour, PartPolled::Rpc(Polled::Ready(SwarmAction::Request(request)))), step) ==> final(behaviour)@ == old(behaviour)@ && match request {
            SwarmRequest::Address(AddressRequest::DialAddress { address }) => step == PollStep::<M, P, G, R, I, D>::Answer(
                Polled::Ready(
                    SwarmAction::Request(
                        SwarmRequest::Address(AddressRequest::DialAddress { address }),
                    ),
                ),
            ),
            SwarmRequest::Address(AddressRequest::DialPeer { peer_id, condition }) => step == PollStep::<M, P, G, R, I, D>::Answer(
                Polled::Ready(
                    SwarmAction::Request(
                        SwarmRequest::Address(AddressRequest::DialPeer { peer_id, condition }),
                    ),
                ),
            ),
            SwarmRequest::Address(AddressRequest::ReportObservedAddr { address }) => step == PollStep::<M, P, G, R, I, D>::Answer(
                Polled::Ready(
                    SwarmAction::Request(
                        SwarmRequest::Address(AddressRequest::ReportObservedAddr { address }),
                    ),
                ),
            ),
            SwarmRequest::NotifyHandler { peer_id, handler, event } => step == PollStep::<M, P, G, R, I, D>::Answer(
                Polled::Ready(
                    SwarmAction::Request(
                        SwarmRequest::NotifyHandler {
                            peer_id,
                            handler,
                            event: BehaviourHandlerIn::Delegate(DelegateIn::RPC(event)),
                        },
                    ),
                ),
            ),
        },
        call_ensures(
            Behaviour::<M, P, N>::poll::<G, R, I, D>, (behaviour, PartPolled::Rpc(Polled::Pending)), step,
        ) ==> final(behaviour)@ == old(behaviour)@
            && step == PollStep::<M, P, G, R, I, D>::Poll(Stage::Identify),
{
}

/// A request of the identify protocol is the answer to the swarm, as it came: one about addresses
/// unchanged, and an event for a connection handler for the same peer and handler, marked as being
/// for that protocol. If the protocol has nothing as yet, the next part is polled. Nothing
/// changes.
pub proof fn law_poll_identify_requests<M, P, N: Fn(GossipTopic) -> String, G, R, I, D>(
    behaviour: &mut Behaviour<M, P, N>,
    request: SwarmRequest<I>,
    step: PollStep<M, P, G, R, I, D>,
)
    ensures
        call_ensures(Behaviour::<M, P, N>::poll::<G, R, I, D>, (behaviour, PartPolled::Identify(Polled::Ready(SwarmAction::Request(request)))), step) ==> final(behaviour)@ == old(behaviour)@ && match request {
            SwarmRequest::Address(AddressRequest::DialAddress { address }) => step == PollStep::<M, P, G, R, I, D>::Answer(
                Polled::Ready(
                    SwarmAction::Request(
                        SwarmRequest::Address(AddressRequest::DialAddress { address }),
                    ),
                ),
            ),
            SwarmRequest::Address(AddressRequest::DialPeer { peer_id, condition }) => step == PollStep::<M, P, G, R, I, D>::Answer(
                Polled::Ready(
                    SwarmAction::Request(
                        SwarmRequest::Address(AddressRequest::DialPeer { peer_id, condition }),
                    ),
                ),
            ),
            SwarmRequest::Address(AddressRequest::ReportObservedAddr { address }) => step == PollStep::<M, P, G, R, I, D>::Answer(
                Polled::Ready(
                    SwarmAction::Request(
                        SwarmRequest::Address(AddressRequest::ReportObservedAddr { address }),
                    ),
                ),
            ),
            SwarmRequest::NotifyHandler { peer_id, handler, event } => step == PollStep::<M, P, G, R, I, D>::Answer(
                Polled::Ready(
                    SwarmAction::Request(
                        SwarmRequest::NotifyHandler {
                            peer_id,
                            handler,
                            event: BehaviourHandlerIn::Delegate(DelegateIn::Identify(event)),
                        },
                    ),
                ),
            ),
        },
        call_ensures(
            Behaviour::<M, P, N>::poll::<G, R, I, D>, (behaviour, PartPolled::Identify(Polled::Pending)), step,
        ) ==> final(behaviour)@ == old(behaviour)@
            && step == PollStep::<M, P, G, R, I, D>::Poll(Stage::Discovery),
{
}

/// A request of the discovery protocol is the answer to the swarm, as it came: one about addresses
/// unchanged, and an event for a connection handler for the same peer and handler, marked as being
/// for that protocol. If the protocol has nothing as yet, the next part is polled. Nothing
/// changes.
pub proof fn law_poll_discovery_requests<M, P, N: Fn(GossipTopic) -> String, G, R, I, D>(
    behaviour: &mut Behaviour<M, P, N>,
    request: SwarmRequest<D>,
    step: PollStep<M, P, G, R, I, D>,
)
    ensures
        call_ensures(Behaviour::<M, P, N>::poll::<G, R, I, D>, (behaviour, PartPolled::Discovery(Polled::Ready(SwarmAction::Request(request)))), step) ==> final(behaviour)@ == old(behaviour)@ && match request {
            SwarmRequest::Address(AddressRequest::DialAddress { address }) => step == PollStep::<M, P, G, R, I, D>::Answer(
                Polled::Ready(
                    SwarmAction::Request(
                        SwarmRequest::Address(AddressRequest::DialAddress { address }),
                    ),
                ),
            ),
            SwarmRequest::Address(AddressRequest::DialPeer { peer_id, condition }) => step == PollStep::<M, P, G, R, I, D>::Answer(
                Polled::Ready(
                    SwarmAction::Request(
                        SwarmRequest::Address(AddressRequest::DialPeer { peer_id, condition }),
                    ),
                ),
            ),
            SwarmRequest::Address(AddressRequest::ReportObservedAddr { address }) => step == PollStep::<M, P, G, R, I, D>::Answer(
                Polled::Ready(
                    SwarmAction::Request(
                        SwarmRequest::Address(AddressRequest::ReportObservedAddr { address }),
                    ),
                ),
            ),
            SwarmRequest::NotifyHandler { peer_id, handler, event } => step == PollStep::<M, P, G, R, I, D>::Answer(
                Polled::Ready(
                    SwarmAction::Request(
                        SwarmRequest::NotifyHandler {
                            peer_id,
                            handler,
                            event: BehaviourHandlerIn::Delegate(DelegateIn::Discovery(event)),
                        },
                    ),
                ),
            ),
        },
        call_ensures(
            Behaviour::<M, P, N>::poll::<G, R, I, D>, (
                behaviour,
                PartPolled::Discovery(Polled::Pending),
            ), step,
        ) ==> final(behaviour)@ == old(behaviour)@
            && step == PollStep::<M, P, G, R, I, D>::Poll(Stage::PeerManager),
{
}

/// An event of the gossip protocol that polling comes up with has the effect of `on_gossip_event`,
/// and the protocol is polled again.
pub proof fn law_poll_gossip_event<M, P, N: Fn(GossipTopic) -> String, G, R, I, D>(
    behaviour: &mut Behaviour<M, P, N>,
    event: GossipsubEvent<M>,
    step: PollStep<M, P, G, R, I, D>,
)
    requires
        old(behaviour)@.wf(),
        call_ensures(
            Behaviour::<M, P, N>::poll::<G, R, I, D>, (
                behaviour,
                PartPolled::Gossipsub(Polled::Ready(SwarmAction::GenerateEvent(event))),
            ), step,
        ),
    ensures
        step == PollStep::<M, P, G, R, I, D>::Poll(Stage::Gossipsub),
        match event {
            GossipsubEvent::Message { propagation_source, id, topics, decoded } => {
                &&& final(behaviour)@ == (BehaviourView {
                    events: final(behaviour)@.events,
                    seen: final(behaviour)@.seen,
                    ..old(behaviour)@
                })
                &&& final(behaviour)@.events == match decoded {
                    Ok(message) if !old(behaviour)@.seen.contains(id.0@) => old(behaviour)@.events.push(
                        BehaviourEvent::PubsubMessage {
                            id,
                            source: propagation_source,
                            topics,
                            message,
                        },
                    ),
                    _ => old(behaviour)@.events,
                }
                &&& !old(behaviour)@.seen.contains(id.0@)
                && old(behaviour)@.seen.len() < old(behaviour)@.seen_capacity
                    ==> final(behaviour)@.seen == seq![id.0@] + old(behaviour)@.seen
                &&& !old(behaviour)@.seen.contains(id.0@) && old(behaviour)@.seen.len()
                == old(behaviour)@.seen_capacity
                    ==> final(behaviour)@.seen == seq![id.0@] + old(behaviour)@.seen.drop_last()
                &&& forall|i: int|
                    0 <= i < old(behaviour)@.seen.len() && #[trigger] old(behaviour)@.seen[i]
                        == id.0@ ==> final(behaviour)@.seen
                        == seq![id.0@] + old(behaviour)@.seen.remove(i)
            },
            GossipsubEvent::Subscribed { peer_id, topic } => final(behaviour)@ == (BehaviourView {
                events: old(behaviour)@.events.push(BehaviourEvent::PeerSubscribed(peer_id, topic)),
                ..old(behaviour)@
            }),
            GossipsubEvent::Unsubscribed { .. } => final(behaviour)@ == old(behaviour)@,
        },
{
    let before = old(behaviour)@;
    let after = final(behaviour)@;
    match event {
        GossipsubEvent::Message { propagation_source, id, topics, decoded } => {
            assert forall|i: int| 0 <= i < before.seen.len() && #[trigger] before.seen[i]
                == id.0@ implies after.seen == seq![id.0@] + before.seen.remove(i) by {
                assert(before.seen.contains(id.0@));
                before.seen.index_of_first_ensures(id.0@);
                assert(before.seen.index_of_first(id.0@).unwrap() == i);
            }
            match decoded {
                Ok(message) if !before.seen.contains(id.0@) => {
                    assert(after.events =~= before.events.push(
                        BehaviourEvent::PubsubMessage {
                            id,
                            source: propagation_source,
                            topics,
                            message,
                        },
                    ));
                },
                _ => {
                    assert(after.events =~= before.events);
                },
            }
        },
        GossipsubEvent::Subscribed { peer_id, topic } => {
            assert(after.events =~= before.events.push(
                BehaviourEvent::PeerSubscribed(peer_id, topic),
            ));
        },
        GossipsubEvent::Unsubscribed { .. } => {
            assert(after.events =~= before.events);
        },
    }
}

/// An RPC event that polling comes up with has the effect of `on_rpc_event`, and the protocol is
/// polled again.
pub proof fn law_poll_rpc_event<M, P, N: Fn(GossipTopic) -> String, G, R, I, D>(
    behaviour: &mut Behaviour<M, P, N>,
    message: RPCMessage<P>,
    step: PollStep<M, P, G, R, I, D>,
)
    requires
        call_ensures(
            Behaviour::<M, P, N>::poll::<G, R, I, D>, (
                behaviour,
                PartPolled::Rpc(Polled::Ready(SwarmAction::GenerateEvent(message))),
            ), step,
        ),
    ensures
        step == PollStep::<M, P, G, R, I, D>::Poll(Stage::Rpc),
        ({
            let peer_id = message.peer_id;
            match message.event {
                RPCEvent::Request(id, RPCRequest::Ping(ping)) => final(behaviour)@ == (
                    BehaviourView {
                        commands: old(behaviour)@.commands.push(Command::PingRequest(peer_id, ping.data)).push(
                            Command::SendRpc(
                                peer_id,
                                RPCEvent::Response(
                                    id,
                                    RPCCodedResponse::Success(
                                        RPCResponse::Pong(
                                            Ping { data: old(behaviour)@.meta_data.seq_number },
                                        ),
                                    ),
                                ),
                            ),
                        ),
                        ..old(behaviour)@
                    }
                ),
                RPCEvent::Request(id, RPCRequest::MetaData) => final(behaviour)@ == (
                    BehaviourView {
                        commands: old(behaviour)@.commands.push(
                            Command::SendRpc(
                                peer_id,
                                RPCEvent::Response(
                                    id,
                                    RPCCodedResponse::Success(
                                        RPCResponse::MetaData(
                                            MetaData {
                                                seq_number: old(behaviour)@.meta_data.seq_number,
                                                attnets: old(behaviour)@.meta_data.attnets,
                                            },
                                        ),
                                    ),
                                ),
                            ),
                        ),
                        ..old(behaviour)@
                    }
                ),
                RPCEvent::Request(id, RPCRequest::Status(status)) => final(behaviour)@ == (
                    BehaviourView {
                        events: old(behaviour)@.events.push(
                            BehaviourEvent::RPC(
                                peer_id,
                                RPCEvent::Request(id, RPCRequest::Status(status)),
                            ),
                        ),
                        commands: old(behaviour)@.commands.push(Command::PeerStatusd(peer_id)),
                        ..old(behaviour)@
                    }
                ),
                RPCEvent::Request(id, RPCRequest::Other(content)) => final(behaviour)@ == (
                    BehaviourView {
                        events: old(behaviour)@.events.push(
                            BehaviourEvent::RPC(
                                peer_id,
                                RPCEvent::Request(id, RPCRequest::Other(content)),
                            ),
                        ),
                        ..old(behaviour)@
                    }
                ),
                RPCEvent::Response(_, RPCCodedResponse::Success(RPCResponse::Pong(ping))) => final(behaviour)@ == (
                    BehaviourView {
                        commands: old(behaviour)@.commands.push(Command::PongResponse(peer_id, ping.data)),
                        ..old(behaviour)@
                    }
                ),
                RPCEvent::Response(_, RPCCodedResponse::Success(RPCResponse::MetaData(theirs))) => final(behaviour)@ == (
                    BehaviourView {
                        commands: old(behaviour)@.commands.push(Command::MetaDataResponse(peer_id, theirs)),
                        ..old(behaviour)@
                    }
                ),
                RPCEvent::Response(id, RPCCodedResponse::Success(RPCResponse::Status(status))) => final(behaviour)@ == (
                    BehaviourView {
                        events: old(behaviour)@.events.push(
                            BehaviourEvent::RPC(
                                peer_id,
                                RPCEvent::Response(
                                    id,
                                    RPCCodedResponse::Success(RPCResponse::Status(status)),
                                ),
                            ),
                        ),
                        commands: old(behaviour)@.commands.push(Command::PeerStatusd(peer_id)),
                        ..old(behaviour)@
                    }
                ),
                RPCEvent::Response(id, RPCCodedResponse::Success(RPCResponse::Other(content))) => final(behaviour)@ == (
                    BehaviourView {
                        events: old(behaviour)@.events.push(
                            BehaviourEvent::RPC(
                                peer_id,
                                RPCEvent::Response(
                                    id,
                                    RPCCodedResponse::Success(RPCResponse::Other(content)),
                                ),
                            ),
                        ),
                        ..old(behaviour)@
                    }
                ),
                RPCEvent::Response(id, RPCCodedResponse::Other(content)) => final(behaviour)@ == (
                    BehaviourView {
                        events: old(behaviour)@.events.push(
                            BehaviourEvent::RPC(
                                peer_id,
                                RPCEvent::Response(id, RPCCodedResponse::Other(content)),
                            ),
                        ),
                        ..old(behaviour)@
                    }
                ),
                RPCEvent::Error(id, protocol, error) => final(behaviour)@ == (
                    BehaviourView {
                        events: old(behaviour)@.events.push(
                            BehaviourEvent::RPC(peer_id, RPCEvent::Error(id, protocol, error)),
                        ),
                        commands: old(behaviour)@.commands.push(
                            Command::HandleRpcError(peer_id, protocol, error),
                        ),
                        ..old(behaviour)@
                    }
                ),
            }
        }),
{
    let peer_id = message.peer_id;
    match message.event {
        RPCEvent::Request(id, RPCRequest::Ping(ping)) => {
            assert(
                final(behaviour)@ =~= (
                    BehaviourView {
                        commands: old(behaviour)@.commands.push(Command::PingRequest(peer_id, ping.data)).push(
                            Command::SendRpc(
                                peer_id,
                                RPCEvent::Response(
                                    id,
                                    RPCCodedResponse::Success(
                                        RPCResponse::Pong(
                                            Ping { data: old(behaviour)@.meta_data.seq_number },
                                        ),
                                    ),
                                ),
                            ),
                        ),
                        ..old(behaviour)@
                    }
                )
            );
        },
        RPCEvent::Request(id, RPCRequest::MetaData) => {
            assert(
                final(behaviour)@ =~= (
                    BehaviourView {
                        commands: old(behaviour)@.commands.push(
                            Command::SendRpc(
                                peer_id,
                                RPCEvent::Response(
                                    id,
                                    RPCCodedResponse::Success(
                                        RPCResponse::MetaData(
                                            MetaData {
                                                seq_number: old(behaviour)@.meta_data.seq_number,
                                                attnets: old(behaviour)@.meta_data.attnets,
                                            },
                                        ),
                                    ),
                                ),
                            ),
                        ),
                        ..old(behaviour)@
                    }
                )
            );
        },
        RPCEvent::Request(id, RPCRequest::Status(status)) => {
            assert(
                final(behaviour)@ =~= (
                    BehaviourView {
                        events: old(behaviour)@.events.push(
                            BehaviourEvent::RPC(
                                peer_id,
                                RPCEvent::Request(id, RPCRequest::Status(status)),
                            ),
                        ),
                        commands: old(behaviour)@.commands.push(Command::PeerStatusd(peer_id)),
                        ..old(behaviour)@
                    }
                )
            );
        },
        RPCEvent::Request(id, RPCRequest::Other(content)) => {
            assert(
                final(behaviour)@ =~= (
                    BehaviourView {
                        events: old(behaviour)@.events.push(
                            BehaviourEvent::RPC(
                                peer_id,
                                RPCEvent::Request(id, RPCRequest::Other(content)),
                            ),
                        ),
                        ..old(behaviour)@
                    }
                )
            );
        },
        RPCEvent::Response(_, RPCCodedResponse::Success(RPCResponse::Pong(ping))) => {
            assert(
                final(behaviour)@ =~= (
                    BehaviourView {
                        commands: old(behaviour)@.commands.push(Command::PongResponse(peer_id, ping.data)),
                        ..old(behaviour)@
                    }
                )
            );
        },
        RPCEvent::Response(_, RPCCodedResponse::Success(RPCResponse::MetaData(theirs))) => {
            assert(
                final(behaviour)@ =~= (
                    BehaviourView {
                        commands: old(behaviour)@.commands.push(Command::MetaDataResponse(peer_id, theirs)),
                        ..old(behaviour)@
                    }
                )
            );
        },
        RPCEvent::Response(id, RPCCodedResponse::Success(RPCResponse::Status(status))) => {
            assert(
                final(behaviour)@ =~= (
                    BehaviourView {
                        events: old(behaviour)@.events.push(
                            BehaviourEvent::RPC(
                                peer_id,
                                RPCEvent::Response(
                                    id,
                                    RPCCodedResponse::Success(RPCResponse::Status(status)),
                                ),
                            ),
                        ),
                        commands: old(behaviour)@.commands.push(Command::PeerStatusd(peer_id)),
                        ..old(behaviour)@
                    }
                )
            );
        },
        RPCEvent::Response(id, RPCCodedResponse::Success(RPCResponse::Other(content))) => {
            assert(
                final(behaviour)@ =~= (
                    BehaviourView {
                        events: old(behaviour)@.events.push(
                            BehaviourEvent::RPC(
                                peer_id,
                                RPCEvent::Response(
                                    id,
                                    RPCCodedResponse::Success(RPCResponse::Other(content)),
                                ),
                            ),
                        ),
                        ..old(behaviour)@
                    }
                )
            );
        },
        RPCEvent::Response(id, RPCCodedResponse::Other(content)) => {
            assert(
                final(behaviour)@ =~= (
                    BehaviourView {
                        events: old(behaviour)@.events.push(
                            BehaviourEvent::RPC(
                                peer_id,
                                RPCEvent::Response(id, RPCCodedResponse::Other(content)),
                            ),
                        ),
                        ..old(behaviour)@
                    }
                )
            );
        },
        RPCEvent::Error(id, protocol, error) => {
            assert(
                final(behaviour)@ =~= (
                    BehaviourView {
                        events: old(behaviour)@.events.push(
                            BehaviourEvent::RPC(peer_id, RPCEvent::Error(id, protocol, error)),
                        ),
                        commands: old(behaviour)@.commands.push(
                            Command::HandleRpcError(peer_id, protocol, error),
                        ),
                        ..old(behaviour)@
                    }
                )
            );
        },
    }
}

/// An event of the identify protocol that polling comes up with has the effect of
/// `on_identify_event`, and the protocol is polled again.
pub proof fn law_poll_identify_event<M, P, N: Fn(GossipTopic) -> String, G, R, I, D>(
    behaviour: &mut Behaviour<M, P, N>,
    event: IdentifyEvent,
    step: PollStep<M, P, G, R, I, D>,
)
    requires
        call_ensures(
            Behaviour::<M, P, N>::poll::<G, R, I, D>, (
                behaviour,
                PartPolled::Identify(Polled::Ready(SwarmAction::GenerateEvent(event))),
            ), step,
        ),
    ensures
        step == PollStep::<M, P, G, R, I, D>::Poll(Stage::Identify),
        match event {
            IdentifyEvent::Received { peer_id, info, .. } => {
                &&& final(behaviour)@ == (
                    BehaviourView { commands: final(behaviour)@.commands, ..old(behaviour)@ }
                )
                &&& final(behaviour)@.commands.len() == old(behaviour)@.commands.len() + 1
                &&& final(behaviour)@.commands.drop_last() == old(behaviour)@.commands
                &&& final(behaviour)@.commands.last() matches Command::Identify(peer, kept)
                &&& peer == peer_id
                &&& kept.public_key == info.public_key
                &&& kept.protocol_version == info.protocol_version
                &&& kept.agent_version == info.agent_version
                &&& kept.protocols == info.protocols
                &&& kept.listen_addrs@ == if info.listen_addrs@.len() > 10 {
                    info.listen_addrs@.take(10)
                } else {
                    info.listen_addrs@
                }
            },
            _ => final(behaviour)@ == old(behaviour)@,
        },
{
    if let IdentifyEvent::Received { peer_id, info, .. } = event {
        assert(final(behaviour)@.commands.drop_last() =~= old(behaviour)@.commands);
        assert(info.listen_addrs@.take(info.listen_addrs@.len() as int) =~= info.listen_addrs@);
    }
}

/// An event of discovery that polling comes up with changes nothing, and discovery is polled
/// again.
pub proof fn law_poll_discovery_event<M, P, N: Fn(GossipTopic) -> String, G, R, I, D>(
    behaviour: &mut Behaviour<M, P, N>,
    event: DiscoveryEvent,
    step: PollStep<M, P, G, R, I, D>,
)
    requires
        call_ensures(
            Behaviour::<M, P, N>::poll::<G, R, I, D>, (
                behaviour,
                PartPolled::Discovery(Polled::Ready(SwarmAction::GenerateEvent(event))),
            ), step,
        ),
    ensures
        step == PollStep::<M, P, G, R, I, D>::Poll(Stage::Discovery),
        final(behaviour)@ == old(behaviour)@,
{
}

/// A status that the peer manager asks for is the answer to the swarm. Pings and requests for meta
/// data that it asks for are sent, and after these and all other events it is polled again.
pub proof fn law_poll_peer_manager_event<M, P, N: Fn(GossipTopic) -> String, G, R, I, D>(
    behaviour: &mut Behaviour<M, P, N>,
    event: PeerManagerEvent,
    step: PollStep<M, P, G, R, I, D>,
)
    requires
        call_ensures(
            Behaviour::<M, P, N>::poll::<G, R, I, D>, (
                behaviour,
                PartPolled::PeerManager(Polled::Ready(Some(event))),
            ), step,
        ),
    ensures
        match event {
            PeerManagerEvent::Status(peer_id) => step == PollStep::<M, P, G, R, I, D>::Answer(
                Polled::Ready(SwarmAction::GenerateEvent(BehaviourEvent::StatusPeer(peer_id))),
            ) && final(behaviour)@ == old(behaviour)@,
            PeerManagerEvent::Ping(peer_id) => step == PollStep::<M, P, G, R, I, D>::Poll(Stage::PeerManager) && final(behaviour)@ == (
                BehaviourView {
                    commands: old(behaviour)@.commands.push(
                        Command::SendRpc(
                            peer_id,
                            RPCEvent::Request(
                                0,
                                RPCRequest::Ping(
                                    Ping { data: old(behaviour)@.meta_data.seq_number },
                                ),
                            ),
                        ),
                    ),
                    ..old(behaviour)@
                }
            ),
            PeerManagerEvent::MetaData(peer_id) => step == PollStep::<M, P, G, R, I, D>::Poll(Stage::PeerManager) && final(behaviour)@ == (
                BehaviourView {
                    commands: old(behaviour)@.commands.push(
                        Command::SendRpc(peer_id, RPCEvent::Request(0, RPCRequest::MetaData)),
                    ),
                    ..old(behaviour)@
                }
            ),
            PeerManagerEvent::DisconnectPeer(_) => step
                == PollStep::<M, P, G, R, I, D>::Poll(Stage::PeerManager) && final(behaviour)@
                == old(behaviour)@,
            PeerManagerEvent::BanPeer(_) => step
                == PollStep::<M, P, G, R, I, D>::Poll(Stage::PeerManager) && final(behaviour)@
                == old(behaviour)@,
        },
{
    match event {
        PeerManagerEvent::Ping(peer_id) => {
            assert(
                final(behaviour)@ =~= (
                    BehaviourView {
                        commands: old(behaviour)@.commands.push(
                            Command::SendRpc(
                                peer_id,
                                RPCEvent::Request(
                                    0,
                                    RPCRequest::Ping(
                                        Ping { data: old(behaviour)@.meta_data.seq_number },
                                    ),
                                ),
                            ),
                        ),
                        ..old(behaviour)@
                    }
                )
            );
        },
        PeerManagerEvent::MetaData(peer_id) => {
            assert(
                final(behaviour)@ =~= (
                    BehaviourView {
                        commands: old(behaviour)@.commands.push(
                            Command::SendRpc(peer_id, RPCEvent::Request(0, RPCRequest::MetaData)),
                        ),
                        ..old(behaviour)@
                    }
                )
            );
        },
        _ => { assert(final(behaviour)@ =~= old(behaviour)@); },
    }
}

/// When the peer manager has nothing more, or has ended, the oldest of the events that wait is the
/// answer to the swarm and goes from the queue; and if none waits, the answer is that there is
/// nothing.
pub proof fn law_poll_hands_out<M, P, N: Fn(GossipTopic) -> String, G, R, I, D>(
    behaviour: &mut Behaviour<M, P, N>,
    polled: Polled<Option<PeerManagerEvent>>,
    step: PollStep<M, P, G, R, I, D>,
)
    requires
        polled is Pending || polled == Polled::Ready(None::<PeerManagerEvent>),
        call_ensures(
            Behaviour::<M, P, N>::poll::<G, R, I, D>, (behaviour, PartPolled::PeerManager(polled)), step,
        ),
    ensures
        final(behaviour)@ == (
            BehaviourView { events: final(behaviour)@.events, ..old(behaviour)@ }
        ),
        old(behaviour)@.events.len() == 0 ==> step
            == PollStep::<M, P, G, R, I, D>::Answer(Polled::Pending)
            && final(behaviour)@.events == old(behaviour)@.events,
        old(behaviour)@.events.len() > 0 ==> step == PollStep::<M, P, G, R, I, D>::Answer(
            Polled::Ready(SwarmAction::GenerateEvent(old(behaviour)@.events[0])),
        ) && old(behaviour)@.events == seq![old(behaviour)@.events[0]] + final(behaviour)@.events,
{
    if old(behaviour)@.events.len() > 0 {
        assert(
            old(behaviour)@.events =~= seq![old(behaviour)@.events[0]] + final(behaviour)@.events
        );
    }
}

/// An event from a connection goes to the protocol that it is marked for, as it came; an event of
/// the behaviour itself goes nowhere.
pub proof fn law_inject_event<G, R, I, D>(
    event: BehaviourHandlerOut<G, R, I, D>,
    delegate: Option<DelegateOut<G, R, I, D>>,
)
    requires
        call_ensures(inject_event::<G, R, I, D>, (event,), delegate),
    ensures
        delegate == match event {
            BehaviourHandlerOut::Delegate(DelegateOut::Gossipsub(event)) => Some(
                DelegateOut::Gossipsub(event),
            ),
            BehaviourHandlerOut::Delegate(DelegateOut::RPC(event)) => Some(DelegateOut::RPC(event)),
            BehaviourHandlerOut::Delegate(DelegateOut::Identify(event)) => Some(
                DelegateOut::Identify(event),
            ),
            BehaviourHandlerOut::Delegate(DelegateOut::Discovery(event)) => Some(
                DelegateOut::Discovery(event),
            ),
            BehaviourHandlerOut::Custom => None,
        },
{
}

/// The addresses of a peer are all those that the protocols know, in the order of the protocols.
pub proof fn law_addresses_of_peer(
    gossipsub: Vec<Multiaddr>,
    eth2_rpc: Vec<Multiaddr>,
    identify: Vec<Multiaddr>,
    discovery: Vec<Multiaddr>,
    addresses: Vec<Multiaddr>,
)
    requires
        call_ensures(
            addresses_of_peer,
            (gossipsub, eth2_rpc, identify, discovery),
            addresses,
        ),
    ensures
        addresses@ == gossipsub@ + eth2_rpc@ + identify@ + discovery@,
{
}

/// A gossip protocol can be made if its history fits into memory and its first heartbeat is not
/// beyond what the clock can tell.
pub proof fn law_usable_settings(
    settings: &GossipSettings,
    usable: bool,
)
    requires
        call_ensures(GossipSettings::is_usable, (settings,), usable),
    ensures
        usable == (settings.history_length * 24 <= isize::MAX && settings.heartbeat_initial_delay
            <= u32::MAX),
        usable == settings.usable(),
{
}

/// A list can be published if the gossip protocol keeps a history, or if no message in it was
/// encoded for any kind.
pub proof fn law_can_publish<M, P, N: Fn(GossipTopic) -> String>(
    behaviour: &Behaviour<M, P, N>,
    messages: &Vec<OutgoingMessage>,
    can: bool,
)
    requires
        behaviour@.wf(),
        call_ensures(Behaviour::<M, P, N>::can_publish, (behaviour, messages), can),
    ensures
        can <==> behaviour@.settings.history_length > 0 || !(exists|i: int|
            0 <= i < messages@.len() && (#[trigger] messages@[i]).encoded is Ok
                && messages@[i].kinds@.len() > 0),
{
    lemma_publishing_messages(behaviour@, messages@);
}

/// The text that is handed to the server is the caller's, and the result is what the server
/// answered: success if it took the text, and otherwise the message with the server's reason.
/// Without a server there is nothing to do.
pub proof fn law_send_string(
    sender: &WebSocketSender,
    string: String,
    result: Result<(), String>,
)
    requires
        call_ensures(WebSocketSender::send_string, (sender, string), result),
    ensures
        match sender.server() {
            Some(broadcaster) => match result {
                Ok(_) => replied(broadcaster, string@, Ok(())),
                Err(message) => exists|error: ws::Error, reason: Seq<char>| #[trigger]
                    replied(broadcaster, string@, Err(error))
                        && #[trigger] described(error, reason)
                        && message@ == "Unable to broadcast to websocket clients: "@ + reason,
            },
            None => result is Ok,
        },
{
}

/// A failure to send is told with its reason, and success stays success.
pub proof fn law_broadcast_result(
    reply: Result<(), String>,
    result: Result<(), String>,
)
    requires
        call_ensures(broadcast_result, (reply,), result),
    ensures
        result is Ok <==> reply is Ok,
        reply matches Err(reason) ==> result->Err_0@
            == "Unable to broadcast to websocket clients: "@ + reason@,
{
}

/// A dummy has no server; the sender of a server, or of a start that has come to its end, has the
/// server that was given.
pub proof fn law_sender_of_a_server(
    broadcaster: ws::Sender,
    start: ServerStart,
    none: WebSocketSender,
    sender: WebSocketSender,
    finished: WebSocketSender,
)
    ensures
        call_ensures(WebSocketSender::dummy, (), none) ==> none.server() is None,
        call_ensures(WebSocketSender::to_server, (broadcaster,), sender) ==> sender.server() == Some(
            broadcaster,
        ),
        call_ensures(ServerStart::finish, (start, broadcaster), finished) ==> finished.server() == Some(
            broadcaster,
        ),
{
}

/// A server binds to its listening address and its port in decimal notation, with a colon between
/// them.
pub proof fn law_server_address(
    config: &Config,
    start: ServerStart,
)
    requires
        call_ensures(start_server, (config,), start),
    ensures
        start.stage() == StartStage::Initializing,
        start.address() == config.listen_address@ + ":"@ + decimal(config.port as nat),
{
}

/// Decimal notation: a single digit stands for a number below ten, and otherwise the last digit
/// for the remainder and the rest for the tens; and it starts with a zero only for zero itself.
pub proof fn law_decimal(
    n: nat,
)
    ensures
        n < 10 ==> decimal(n).len() == 1 && decimal(n)[0] as int == n + 48,
        n >= 10 ==> decimal(n).drop_last() == decimal(n / 10) && decimal(n).last() as int
            == n % 10 + 48
            && decimal(n).len() == decimal(n / 10).len() + 1,
        decimal(n).len() > 0,
        n > 0 ==> decimal(n)[0] as int > 48,
    decreases n,
{
    if n >= 10 {
        law_decimal(n / 10);
        assert(decimal(n).drop_last() =~= decimal(n / 10));
        assert(decimal(n)[0] == decimal(n / 10)[0]);
    }
}

/// A number is written in decimal notation.
pub proof fn law_to_decimal(
    n: u16,
    text: String,
)
    requires
        call_ensures(to_decimal, (n,), text),
    ensures
        text@ == decimal(n as nat),
{
}

/// To start a server it is initialized, then bound to its address, then asked for the address that
/// it came to listen on, and then run.
pub proof fn law_start_requests(
    start: &ServerStart,
    request: StartRequest,
)
    requires
        call_ensures(ServerStart::request, (start,), request),
    ensures
        start.stage() == StartStage::Initializing <==> request is Initialize,
        start.stage() == StartStage::Binding <==> request is Bind,
        request matches StartRequest::Bind(address) ==> address@ == start.address(),
        start.stage() == StartStage::ReadingLocalAddr <==> request is ReadLocalAddr,
        start.stage() == StartStage::Running <==> request is Run,
{
}

/// Each step that succeeds leads to the next, for the same address; one that fails ends the start
/// with a message that names the step, the address if it was to be bound, and the reason.
pub proof fn law_start_replies(
    start: ServerStart,
    outcome: Result<(), String>,
    next: Result<ServerStart, String>,
)
    requires
        start.stage() != StartStage::Running,
        call_ensures(ServerStart::reply, (start, outcome), next),
    ensures
        next is Ok <==> outcome is Ok,
        next matches Ok(go_on) ==> go_on.address() == start.address(),
        next matches Ok(go_on) ==> go_on.stage() == match start.stage() {
            StartStage::Initializing => StartStage::Binding,
            StartStage::Binding => StartStage::ReadingLocalAddr,
            _ => StartStage::Running,
        },
        outcome matches Err(reason) ==> next->Err_0@ == match start.stage() {
            StartStage::Initializing => "Failed to initialize websocket server: "@ + reason@,
            StartStage::Binding => "Failed to bind websocket server to "@ + start.address() + ": "@
                + reason@,
            _ => "Failed to read listening addr from websocket server: "@ + reason@,
        },
{
}

/// A topic is added to a list behind the others unless it is there, and taken out of it from where
/// it is; a list of distinct topics holds each topic of another once.
pub proof fn law_topic_lists(
    list: &mut Vec<GossipTopic>,
    topics: &Vec<GossipTopic>,
    topic: GossipTopic,
    made: Vec<GossipTopic>,
)
    requires
        old(list)@.no_duplicates(),
    ensures
        call_ensures(add_topic, (list, topic), ()) ==> final(list)@ == if old(list)@.contains(topic) {
            old(list)@
        } else {
            old(list)@.push(topic)
        },
        call_ensures(remove_topic, (list, &topic), ()) && !old(list)@.contains(topic)
            ==> final(list)@
            == old(list)@,
        forall|i: int|
            call_ensures(remove_topic, (list, &topic), ()) && 0 <= i < old(list)@.len()
                && #[trigger] old(list)@[i] == topic ==> final(list)@ == old(list)@.remove(i),
        call_ensures(distinct_topics, (topics,), made) ==> made@.no_duplicates() && made@.to_set()
            == topics@.to_set(),
{
    lemma_distinct(topics@);
    assert forall|i: int|
        call_ensures(remove_topic, (list, &topic), ()) && 0 <= i < old(list)@.len()
            && #[trigger] old(list)@[i] == topic implies final(list)@ == old(list)@.remove(i) by {
        assert(old(list)@.contains(topic));
        assert(old(list)@.index_of(topic) == i);
    }
}

/// A topic is made of the kind, the encoding and the fork that are given; two topics are the same
/// if all three are; the kind of a subnet is that of its attestations; and the default encoding is
/// compressed.
pub proof fn law_topics(
    kind: GossipKind,
    encoding: GossipEncoding,
    fork_digest: [u8; 4],
    topic: GossipTopic,
    other: GossipTopic,
    same: bool,
    subnet_id: SubnetId,
)
    ensures
        call_ensures(GossipTopic::new, (kind, encoding, fork_digest), topic) ==> topic.kind == kind
            && topic.encoding == encoding && topic.fork_digest == fork_digest,
        call_ensures(GossipTopic::same, (&topic, &other), same) ==> (same <==> topic.kind == other.kind
            && topic.encoding == other.encoding && topic.fork_digest == other.fork_digest),
        call_ensures(GossipKind::from_subnet, (subnet_id,), kind) ==> kind
            == GossipKind::CommitteeIndex(subnet_id),
        default_encoding() == GossipEncoding::SSZSnappy,
{
}

/// What is read off the behaviour is what its state holds.
pub proof fn law_observed<M, P, N: Fn(GossipTopic) -> String>(
    behaviour: &Behaviour<M, P, N>,
    gossipsub: &Gossipsub,
    settings: GossipSettings,
    topics: &Vec<GossipTopic>,
    meta_data: MetaData,
    enr_fork_id: EnrForkId,
    count: usize,
)
    ensures
        call_ensures(
            Behaviour::<M, P, N>::gs, (behaviour,), gossipsub,
        ) ==> *gossipsub == behaviour@.gossipsub,
        call_ensures(Behaviour::<M, P, N>::settings, (behaviour,), settings) ==> settings
            == behaviour@.settings,
        call_ensures(
            Behaviour::<M, P, N>::gossipsub_subscriptions, (behaviour,), topics,
        ) ==> topics@
            == behaviour@.subscriptions,
        call_ensures(Behaviour::<M, P, N>::meta_data, (behaviour,), meta_data) ==> meta_data
            == behaviour@.meta_data,
        call_ensures(Behaviour::<M, P, N>::enr_fork_id, (behaviour,), enr_fork_id) ==> enr_fork_id
            == behaviour@.enr_fork_id,
        call_ensures(Behaviour::<M, P, N>::waiting_events, (behaviour,), count) ==> count
            == behaviour@.events.len(),
{
}

/// What the operations accept: once the state is well-formed, every argument, but that a list that
/// has something to publish needs a gossip protocol that keeps a history.
pub proof fn law_accepted<M, P, N: Fn(GossipTopic) -> String, G, R, I, D>(
    behaviour: &mut Behaviour<M, P, N>,
    kind: GossipKind,
    subnet_id: SubnetId,
    topics: &Vec<GossipTopic>,
    peer_id: &PeerId,
    id: MessageId,
    enr_fork_id: EnrForkId,
    gossip: GossipsubEvent<M>,
    polled: PartPolled<M, P, G, R, I, D>,
    messages: Vec<OutgoingMessage>,
)
    requires
        old(behaviour)@.wf(),
    ensures
        call_requires(Behaviour::<M, P, N>::subscribe_kind, (behaviour, kind)),
        call_requires(Behaviour::<M, P, N>::unsubscribe_kind, (behaviour, kind)),
        call_requires(Behaviour::<M, P, N>::subscribe_to_subnet, (behaviour, subnet_id)),
        call_requires(Behaviour::<M, P, N>::unsubscribe_from_subnet, (behaviour, subnet_id)),
        call_requires(Behaviour::<M, P, N>::load_subscriptions, (behaviour, topics)),
        call_requires(Behaviour::<M, P, N>::propagate_message, (behaviour, peer_id, id)),
        call_requires(Behaviour::<M, P, N>::update_fork_version, (behaviour, enr_fork_id)),
        call_requires(Behaviour::<M, P, N>::on_gossip_event, (behaviour, gossip)),
        call_requires(Behaviour::<M, P, N>::poll::<G, R, I, D>, (behaviour, polled)),
        old(behaviour)@.publications(messages@).len() == 0 || old(
            behaviour,
        )@.settings.history_length > 0 ==> call_requires(
            Behaviour::<M, P, N>::publish,
            (behaviour, messages),
        ),
{
}

/// What the operations accept of any state: every argument, but that the sequence number is not
/// raised beyond its range.
pub proof fn law_accepted_always<M, P, N: Fn(GossipTopic) -> String>(
    behaviour: &mut Behaviour<M, P, N>,
    peer_id: PeerId,
    event: RPCEvent<P>,
    enr: Enr,
    subnet_id: SubnetId,
    value: bool,
    outcome: Result<(), String>,
    attnets: EnrBitfield,
    message: RPCMessage<P>,
    identified: IdentifyEvent,
    discovered: DiscoveryEvent,
    managed: PeerManagerEvent,
    messages: &Vec<OutgoingMessage>,
)
    ensures
        call_requires(Behaviour::<M, P, N>::send_rpc, (behaviour, peer_id, event)),
        call_requires(Behaviour::<M, P, N>::peer_banned, (behaviour, peer_id)),
        call_requires(Behaviour::<M, P, N>::peer_unbanned, (behaviour, &peer_id)),
        call_requires(Behaviour::<M, P, N>::add_enr, (behaviour, enr)),
        call_requires(Behaviour::<M, P, N>::update_enr_subnet, (behaviour, subnet_id, value)),
        call_requires(Behaviour::<M, P, N>::peers_request, (behaviour, subnet_id)),
        old(behaviour)@.meta_data.seq_number < u64::MAX ==> call_requires(
            Behaviour::<M, P, N>::enr_subnet_updated,
            (behaviour, outcome, attnets),
        ),
        call_requires(Behaviour::<M, P, N>::on_rpc_event, (behaviour, message)),
        call_requires(Behaviour::<M, P, N>::on_identify_event, (behaviour, identified)),
        call_requires(Behaviour::<M, P, N>::on_discovery_event, (behaviour, discovered)),
        call_requires(Behaviour::<M, P, N>::on_peer_manager_event, (behaviour, managed)),
        call_requires(Behaviour::<M, P, N>::next_event, (behaviour,)),
        call_requires(Behaviour::<M, P, N>::next_command, (behaviour,)),
        call_requires(Behaviour::<M, P, N>::can_publish, (&*old(behaviour), messages)),
{
}

/// What the websocket server accepts: every text and every configuration, and the outcome of every
/// step until the server runs.
pub proof fn law_accepted_by_server(
    sender: &WebSocketSender,
    string: String,
    config: &Config,
    start: ServerStart,
    outcome: Result<(), String>,
    broadcaster: ws::Sender,
)
    ensures
        call_requires(WebSocketSender::send_string, (sender, string)),
        call_requires(start_server, (config,)),
        call_requires(ServerStart::request, (&start,)),
        start.stage() != StartStage::Running ==> call_requires(
            ServerStart::reply,
            (start, outcome),
        ),
        start.stage() == StartStage::Running ==> call_requires(
            ServerStart::finish,
            (start, broadcaster),
        ),
{
}

} // verus!
