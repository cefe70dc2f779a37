//! What holds of the behaviour as a whole, over any sequence of its operations.

use libp2p::gossipsub::Gossipsub;
use vstd::prelude::*;
use vstd::seq_lib::seq_to_set_is_finite;

use crate::gossip::{joined_by, left_by, published};
use crate::model::{
    all_published, forked, gossip_events, handled_within, key_of, lemma_keys_with_topic,
    name_of, ping_event, rpc_commands, rpc_events, seen_after, subscribed,
    truncated, unsubscribed, BehaviourEvent, BehaviourView, Command, MAX_IDENTIFY_ADDRESSES,
};
use crate::rpc::{Ping, RPCCodedResponse, RPCEvent, RPCMessage, RPCRequest, RPCResponse};
use crate::seen::{cache_wf, lemma_touched, touched};
use crate::subscriptions::{lemma_on_fork, lemma_with_topic, lemma_without_topic, on_fork};
use crate::swarm::{poll_stepped, PartPolled, PollStep, Polled, Stage, SwarmAction};
use crate::text::{decimal, lemma_decimal_value};
use crate::types::{
    EnrBitfield, EnrForkId, GossipKind, GossipTopic, GossipsubEvent, IdentifyInfo, MetaData,
    OutgoingMessage, PeerManagerEvent,
};
use crate::websocket::{next_stage, server_address, Config, StartStage};

verus! {

/* Subscriptions */

impl<M, P, N: Fn(GossipTopic) -> String> BehaviourView<M, P, N> {
    /// Whether the gossip protocol is subscribed to the topics of the list of subscriptions, and
    /// to nothing else.
    pub open spec fn mirrored(self) -> bool {
        self.joined() == self.keys(self.subscriptions)
    }

    /// Whether the gossip protocol can tell a topic apart from the other topics that the node is
    /// subscribed to.
    pub open spec fn told_apart(self, topic: GossipTopic) -> bool {
        forall|t: GossipTopic| #[trigger]
            self.subscriptions.contains(t) && t != topic ==> self.key(t) != self.key(topic)
    }
}

/// The list of subscriptions holds the topics that the gossip protocol is subscribed to: so it is
/// when there are none.
pub proof fn law_mirrored_at_first<M, P, N: Fn(GossipTopic) -> String>(
    state: BehaviourView<M, P, N>,
)
    requires
        state.subscriptions == Seq::<GossipTopic>::empty(),
        state.joined() == Set::<Seq<char>>::empty(),
    ensures
        state.mirrored(),
{
    assert(state.keys(state.subscriptions) =~= Set::empty());
}

/// Subscribing adds the topic to the set of subscriptions, tells the gossip protocol once, and, if
/// topics are shared with peers at all, keeps the two in step. Where the topic can be told apart
/// from those in the list, the answer is whether it was not in the list.
pub proof fn law_subscribe_mirrored<M, P, N: Fn(GossipTopic) -> String>(
    before: BehaviourView<M, P, N>,
    topic: GossipTopic,
    fresh: bool,
    after: BehaviourView<M, P, N>,
)
    requires
        before.wf(),
        before.mirrored(),
        subscribed(before, topic, fresh, after),
    ensures
        after.subscriptions.to_set() == before.subscriptions.to_set().insert(topic),
        joined_by(before.gossipsub, name_of(before.topic_name, topic), after.gossipsub),
        before.settings.mesh_n > 0 ==> after.mirrored(),
        before.told_apart(topic) ==> fresh == !before.subscriptions.contains(topic),
{
    lemma_with_topic(before.subscriptions, topic);
    lemma_keys_with_topic(before.settings, before.topic_name, before.subscriptions, topic);
    assert(before.joined().difference(Set::empty()).union(set![before.key(topic)])
        =~= before.joined().insert(before.key(topic)));
    if before.told_apart(topic) {
        lemma_key_listed(before, topic);
    }
}

/// Unsubscribing takes the topic, and no other, out of the set of subscriptions, tells the gossip
/// protocol once, and, where the topic can be told apart from the others in the list, keeps the two
/// in step and answers whether the topic was in the list.
pub proof fn law_unsubscribe_mirrored<M, P, N: Fn(GossipTopic) -> String>(
    before: BehaviourView<M, P, N>,
    topic: GossipTopic,
    was_joined: bool,
    after: BehaviourView<M, P, N>,
)
    requires
        before.wf(),
        before.mirrored(),
        unsubscribed(before, topic, was_joined, after),
    ensures
        after.subscriptions.to_set() == before.subscriptions.to_set().remove(topic),
        left_by(before.gossipsub, name_of(before.topic_name, topic), after.gossipsub),
        before.told_apart(topic) ==> after.mirrored() && was_joined
            == before.subscriptions.contains(topic),
{
    lemma_without_topic(before.subscriptions, topic);
    if before.told_apart(topic) {
        lemma_key_listed(before, topic);
        lemma_keys_without_topic(before, topic, after);
    }
}

/// Where a topic can be told apart from the others in the list, its key goes with it.
proof fn lemma_keys_without_topic<M, P, N: Fn(GossipTopic) -> String>(
    before: BehaviourView<M, P, N>,
    topic: GossipTopic,
    after: BehaviourView<M, P, N>,
)
    requires
        before.mirrored(),
        before.told_apart(topic),
        after.settings == before.settings,
        after.topic_name == before.topic_name,
        after.subscriptions.to_set() == before.subscriptions.to_set().remove(topic),
        after.joined() == before.joined().remove(before.key(topic)),
    ensures
        after.mirrored(),
{
    let left = after.subscriptions;
    assert forall|k: Seq<char>|
        after.keys(left).contains(k) <==> before.joined().remove(before.key(topic)).contains(k) by {
        let key = |t: GossipTopic| key_of(before.settings, before.topic_name, t);
        if after.keys(left).contains(k) {
            let t = choose|t: GossipTopic| #[trigger] left.to_set().contains(t) && k == key(t);
            assert(before.subscriptions.to_set().contains(t) && t != topic);
            assert(before.subscriptions.contains(t));
            assert(before.keys(before.subscriptions).contains(before.key(t)));
            assert(before.key(t) != before.key(topic));
        }
        if before.keys(before.subscriptions).contains(k) && k != before.key(topic) {
            let t = choose|t: GossipTopic| #[trigger]
                before.subscriptions.to_set().contains(t) && k == key(t);
            assert(left.to_set().contains(t));
            assert(after.keys(left).contains(k));
        }
    }
    assert(after.joined() =~= after.keys(left));
}

/// Moving to another fork keeps the list of subscriptions in step with the gossip protocol.
pub proof fn law_fork_mirrored<M, P, N: Fn(GossipTopic) -> String>(
    before: BehaviourView<M, P, N>,
    enr_fork_id: EnrForkId,
    after: BehaviourView<M, P, N>,
)
    requires
        before.mirrored(),
        before.settings.mesh_n > 0,
        forked(before, enr_fork_id, after),
    ensures
        after.mirrored(),
{
    let entered = before.keys(after.subscriptions);
    assert(before.joined().difference(before.joined()).union(entered) =~= entered);
}

/// What changes neither the list of subscriptions nor what the gossip protocol is subscribed to,
/// such as publishing or forwarding a message, keeps the two in step.
pub proof fn law_mirrored_otherwise<M, P, N: Fn(GossipTopic) -> String>(
    before: BehaviourView<M, P, N>,
    after: BehaviourView<M, P, N>,
)
    requires
        before.mirrored(),
        after.subscriptions == before.subscriptions,
        after.joined() == before.joined(),
        after.settings == before.settings,
        after.topic_name == before.topic_name,
    ensures
        after.mirrored(),
{
}

/// Where a topic can be told apart from the others in the list, it is in the list if and only if
/// its key is among the keys of the list.
proof fn lemma_key_listed<M, P, N: Fn(GossipTopic) -> String>(
    state: BehaviourView<M, P, N>,
    topic: GossipTopic,
)
    requires
        state.told_apart(topic),
    ensures
        state.keys(state.subscriptions).contains(state.key(topic)) <==> state.subscriptions.contains(
            topic,
        ),
{
    let topics = state.subscriptions;
    let key = |t: GossipTopic| key_of(state.settings, state.topic_name, t);
    if state.keys(topics).contains(state.key(topic)) {
        let t = choose|t: GossipTopic| #[trigger]
            topics.to_set().contains(t) && state.key(topic) == key(t);
        assert(topics.contains(t));
        assert(state.key(t) == state.key(topic));
    }
    if topics.contains(topic) {
        assert(topics.to_set().contains(topic));
        assert(key(topic) == state.key(topic));
    }
}

/// Subscribing twice in a row leaves the list of subscriptions as subscribing once does; and if
/// topics are shared with peers at all, so it is with the subscriptions of the gossip protocol, and
/// the second time the answer is that the topic was subscribed to.
pub proof fn law_subscribe_twice<M, P, N: Fn(GossipTopic) -> String>(
    first: BehaviourView<M, P, N>,
    topic: GossipTopic,
    fresh: bool,
    second: BehaviourView<M, P, N>,
    fresh_again: bool,
    third: BehaviourView<M, P, N>,
)
    requires
        first.wf(),
        subscribed(first, topic, fresh, second),
        subscribed(second, topic, fresh_again, third),
    ensures
        third.subscriptions == second.subscriptions,
        first.settings.mesh_n > 0 ==> !fresh_again && third.joined() == second.joined(),
{
    let key = first.key(topic);
    lemma_with_topic(first.subscriptions, topic);
    assert(second.subscriptions.to_set().contains(topic));
    assert(first.joined().difference(Set::empty()).union(set![key]).contains(key));
    if first.settings.mesh_n > 0 {
        assert(second.joined().difference(Set::empty()).union(set![key]) =~= second.joined());
    }
}

/// Unsubscribing undoes subscribing: to a topic that was not in the list, the list is what it was,
/// and if the topic was not joined either, so are the subscriptions of the gossip protocol. If
/// topics are shared with peers at all, the answer to unsubscribing is that the topic was joined.
pub proof fn law_unsubscribe_undoes_subscribe<M, P, N: Fn(GossipTopic) -> String>(
    first: BehaviourView<M, P, N>,
    topic: GossipTopic,
    fresh: bool,
    second: BehaviourView<M, P, N>,
    was_joined: bool,
    third: BehaviourView<M, P, N>,
)
    requires
        first.wf(),
        !first.subscriptions.contains(topic),
        subscribed(first, topic, fresh, second),
        unsubscribed(second, topic, was_joined, third),
    ensures
        third.subscriptions == first.subscriptions,
        !first.joined().contains(first.key(topic)) ==> fresh && third.joined() == first.joined(),
        first.settings.mesh_n > 0 ==> was_joined,
        third == (BehaviourView { gossipsub: third.gossipsub, ..first }),
{
    let key = first.key(topic);
    let topics = first.subscriptions;
    assert(first.joined().difference(Set::empty()).union(set![key]) =~= first.joined().insert(key));
    assert(second.subscriptions == topics.push(topic));
    assert(topics.push(topic)[topics.len() as int] == topic);
    let at = topics.push(topic).index_of(topic);
    assert(topics.push(topic)[at] == topic);
    assert(at == topics.len()) by {
        if at < topics.len() {
            assert(topics[at] == topic);
        }
    }
    assert(topics.push(topic).remove(at) =~= topics);
    if !first.joined().contains(key) {
        assert(third.joined() =~= first.joined());
    }
}

/// After a move to another fork every subscription is on that fork, and there is one for each
/// kind and encoding that there was one for before, and for no other. The fork that discovery is
/// told to announce last is the one that the node follows.
pub proof fn law_fork_moves_all_subscriptions<M, P, N: Fn(GossipTopic) -> String>(
    before: BehaviourView<M, P, N>,
    enr_fork_id: EnrForkId,
    after: BehaviourView<M, P, N>,
)
    requires
        forked(before, enr_fork_id, after),
    ensures
        after.enr_fork_id == enr_fork_id,
        after.commands.last() == Command::<P>::UpdateEth2Enr(after.enr_fork_id),
        after.subscriptions.no_duplicates(),
        forall|topic: GossipTopic| #[trigger]
            after.subscriptions.contains(topic) ==> topic.fork_digest == enr_fork_id.fork_digest,
        forall|topic: GossipTopic|
            before.subscriptions.contains(topic) ==> after.subscriptions.contains(
                #[trigger] topic.on_fork(enr_fork_id.fork_digest),
            ),
        forall|topic: GossipTopic| #[trigger]
            after.subscriptions.contains(topic) ==> exists|old_topic: GossipTopic|
                before.subscriptions.contains(old_topic) && topic == #[trigger] old_topic.on_fork(
                    enr_fork_id.fork_digest,
                ),
{
    let digest = enr_fork_id.fork_digest;
    let move_topic = |t: GossipTopic| t.on_fork(digest);
    lemma_on_fork(before.subscriptions, digest);
    assert forall|topic: GossipTopic| before.subscriptions.contains(topic) implies
        after.subscriptions.contains(#[trigger] topic.on_fork(digest)) by {
        assert(before.subscriptions.to_set().contains(topic));
        assert(topic.on_fork(digest) == move_topic(topic));
        assert(after.subscriptions.to_set().contains(topic.on_fork(digest)));
    }
    assert forall|topic: GossipTopic| #[trigger] after.subscriptions.contains(topic) implies exists|
        old_topic: GossipTopic,
    |
        before.subscriptions.contains(old_topic) && topic == #[trigger] old_topic.on_fork(
            digest,
        ) by {
        assert(after.subscriptions.to_set().contains(topic));
        let t = choose|t: GossipTopic| #[trigger]
            before.subscriptions.to_set().contains(t) && topic == move_topic(t);
        assert(before.subscriptions.contains(t) && topic == t.on_fork(digest));
    }
}

/// A kind that the node was subscribed to before a move to another fork, it is subscribed to
/// afterwards: unsubscribing from the kind then finds it in the list.
pub proof fn law_fork_keeps_kinds<M, P, N: Fn(GossipTopic) -> String>(
    before: BehaviourView<M, P, N>,
    enr_fork_id: EnrForkId,
    after: BehaviourView<M, P, N>,
    kind: GossipKind,
)
    requires
        forked(before, enr_fork_id, after),
        before.subscriptions.contains(before.topic(kind)),
    ensures
        after.subscriptions.contains(after.topic(kind)),
{
    law_fork_moves_all_subscriptions(before, enr_fork_id, after);
    assert(before.topic(kind).on_fork(enr_fork_id.fork_digest) == after.topic(kind));
}

/// Moving to a fork that the node is on already leaves the subscriptions as they are.
pub proof fn law_fork_twice<M, P, N: Fn(GossipTopic) -> String>(
    first: BehaviourView<M, P, N>,
    enr_fork_id: EnrForkId,
    second: BehaviourView<M, P, N>,
    third: BehaviourView<M, P, N>,
)
    requires
        forked(first, enr_fork_id, second),
        forked(second, enr_fork_id, third),
    ensures
        third.subscriptions == second.subscriptions,
        third.enr_fork_id == second.enr_fork_id,
        first.settings.mesh_n > 0 ==> third.joined() == second.joined(),
{
    let digest = enr_fork_id.fork_digest;
    law_fork_moves_all_subscriptions(first, enr_fork_id, second);
    assert forall|i: int| 0 <= i < second.subscriptions.len() implies #[trigger]
        second.subscriptions[i].fork_digest == digest by {
        assert(second.subscriptions.contains(second.subscriptions[i]));
    }
    lemma_on_fork_fixed(second.subscriptions, digest);
    if first.settings.mesh_n > 0 {
        let keys = second.keys(second.subscriptions);
        assert(second.joined().difference(keys).union(keys) =~= second.joined());
    }
}

/// A list of distinct topics of a fork is its own counterpart on that fork.
proof fn lemma_on_fork_fixed(topics: Seq<GossipTopic>, fork_digest: [u8; 4])
    requires
        topics.no_duplicates(),
        forall|i: int| 0 <= i < topics.len() ==> #[trigger] topics[i].fork_digest == fork_digest,
    ensures
        on_fork(topics, fork_digest) == topics,
    decreases topics.len(),
{
    if topics.len() > 0 {
        let rest = topics.drop_last();
        assert forall|i: int| 0 <= i < rest.len() implies #[trigger] rest[i].fork_digest
            == fork_digest by {
            assert(rest[i] == topics[i]);
        }
        lemma_on_fork_fixed(rest, fork_digest);
        let last = topics.last();
        assert(topics[topics.len() - 1].fork_digest == fork_digest);
        assert(last.on_fork(fork_digest) == last);
        assert(!rest.contains(last)) by {
            if rest.contains(last) {
                let i = choose|i: int| 0 <= i < rest.len() && rest[i] == last;
                assert(topics[i] == topics[topics.len() - 1]);
            }
        }
        assert(rest.push(last) =~= topics);
    }
}

/* Publishing */

/// Publishing two lists of messages, one after the other, hands the gossip protocol what
/// publishing them as one list would.
pub proof fn law_publish_in_parts<M, P, N: Fn(GossipTopic) -> String>(
    state: BehaviourView<M, P, N>,
    earlier: Seq<OutgoingMessage>,
    later: Seq<OutgoingMessage>,
)
    ensures
        state.publications(earlier + later) == state.publications(earlier) + state.publications(
            later,
        ),
    decreases later.len(),
{
    let whole = earlier + later;
    if later.len() == 0 {
        assert(whole =~= earlier);
        assert(state.publications(earlier) + state.publications(later) =~= state.publications(
            earlier,
        ));
    } else {
        law_publish_in_parts(state, earlier, later.drop_last());
        assert(whole.drop_last() =~= earlier + later.drop_last());
        assert(whole.last() == later.last());
        assert(state.publications(whole) =~= state.publications(earlier) + state.publications(
            later,
        ));
    }
}

/// A message that cannot be encoded is published on none of its topics, and changes nothing about
/// what is published of the messages before and after it.
pub proof fn law_unencodable_messages_are_passed_over<M, P, N: Fn(GossipTopic) -> String>(
    state: BehaviourView<M, P, N>,
    earlier: Seq<OutgoingMessage>,
    message: OutgoingMessage,
    later: Seq<OutgoingMessage>,
)
    requires
        message.encoded is Err,
    ensures
        state.publications(earlier.push(message) + later) == state.publications(earlier + later),
        state.publications(seq![message]) == Seq::<(Seq<char>, Seq<u8>)>::empty(),
{
    law_publish_in_parts(state, earlier.push(message), later);
    law_publish_in_parts(state, earlier, later);
    assert(earlier.push(message).drop_last() =~= earlier);
    assert(seq![message].drop_last() =~= Seq::empty());
    assert(state.publications(seq![message].drop_last()) =~= Seq::empty());
}

/// What is handed to the gossip protocol in two parts is handed to it as a whole.
pub proof fn law_published_in_parts(
    first: Gossipsub,
    earlier: Seq<(Seq<char>, Seq<u8>)>,
    second: Gossipsub,
    later: Seq<(Seq<char>, Seq<u8>)>,
    third: Gossipsub,
)
    requires
        all_published(first, earlier, second),
        all_published(second, later, third),
    ensures
        all_published(first, earlier + later, third),
    decreases later.len(),
{
    let whole = earlier + later;
    if later.len() == 0 {
        assert(whole =~= earlier);
    } else {
        let mid = choose|mid: Gossipsub|
            all_published(second, later.drop_last(), mid) && #[trigger] published(
                mid,
                later.last().0,
                later.last().1,
                third,
            );
        law_published_in_parts(first, earlier, second, later.drop_last(), mid);
        assert(whole.drop_last() =~= earlier + later.drop_last());
        assert(whole.last() == later.last());
        assert(published(mid, whole.last().0, whole.last().1, third));
    }
}

/* Received gossip messages */

/// The ids that are remembered after a number of messages have come in.
pub open spec fn touched_by_all(
    keys: Seq<Seq<char>>,
    capacity: nat,
    ids: Seq<Seq<char>>,
) -> Seq<Seq<char>>
    decreases ids.len(),
{
    if ids.len() == 0 {
        keys
    } else {
        touched(touched_by_all(keys, capacity, ids.drop_last()), capacity, ids.last())
    }
}

/// Messages that come in after others are remembered as if all had come in in one go.
pub proof fn law_remembering_in_parts(
    keys: Seq<Seq<char>>,
    capacity: nat,
    earlier: Seq<Seq<char>>,
    later: Seq<Seq<char>>,
)
    ensures
        touched_by_all(keys, capacity, earlier + later) == touched_by_all(
            touched_by_all(keys, capacity, earlier),
            capacity,
            later,
        ),
    decreases later.len(),
{
    let whole = earlier + later;
    if later.len() == 0 {
        assert(whole =~= earlier);
    } else {
        law_remembering_in_parts(keys, capacity, earlier, later.drop_last());
        assert(whole.drop_last() =~= earlier + later.drop_last());
        assert(whole.last() == later.last());
    }
}

/// No more ids are ever remembered than the cache has room for, and none of them twice.
pub proof fn law_memory_is_bounded(keys: Seq<Seq<char>>, capacity: nat, ids: Seq<Seq<char>>)
    requires
        cache_wf(keys, capacity),
    ensures
        cache_wf(touched_by_all(keys, capacity, ids), capacity),
    decreases ids.len(),
{
    if ids.len() > 0 {
        law_memory_is_bounded(keys, capacity, ids.drop_last());
        lemma_touched(touched_by_all(keys, capacity, ids.drop_last()), capacity, ids.last());
    }
}

/// Nothing is remembered but what was remembered at first or has come in since.
pub proof fn law_nothing_else_is_remembered(
    keys: Seq<Seq<char>>,
    capacity: nat,
    ids: Seq<Seq<char>>,
    id: Seq<char>,
)
    requires
        cache_wf(keys, capacity),
        touched_by_all(keys, capacity, ids).contains(id),
    ensures
        keys.contains(id) || ids.contains(id),
    decreases ids.len(),
{
    if ids.len() > 0 {
        let rest = ids.drop_last();
        let before = touched_by_all(keys, capacity, rest);
        let after = touched_by_all(keys, capacity, ids);
        law_memory_is_bounded(keys, capacity, rest);
        lemma_touched_places(before, capacity, ids.last());
        let i = choose|i: int| 0 <= i < after.len() && after[i] == id;
        if i == 0 {
            assert(ids[ids.len() - 1] == id);
        } else {
            assert(before.contains(id)) by {
                if before.contains(ids.last()) && i > before.index_of(ids.last()) {
                    assert(before[i] == id);
                } else {
                    assert(before[i - 1] == id);
                }
            }
            law_nothing_else_is_remembered(keys, capacity, rest, id);
            if rest.contains(id) {
                let k = choose|k: int| 0 <= k < rest.len() && rest[k] == id;
                assert(ids[k] == id);
            }
        }
    }
}

/// After its last message an id is remembered for as long as, and no longer than, the number of
/// distinct other ids that have come in since is below the capacity: the ids that were seen least
/// recently are forgotten first.
pub proof fn law_recent_ids_are_remembered(
    keys: Seq<Seq<char>>,
    capacity: nat,
    id: Seq<char>,
    later: Seq<Seq<char>>,
)
    requires
        cache_wf(keys, capacity),
        !later.contains(id),
    ensures
        touched_by_all(touched(keys, capacity, id), capacity, later).contains(id)
            <==> later.to_set().len() < capacity,
{
    lemma_touched(keys, capacity, id);
    lemma_recency(touched(keys, capacity, id), capacity, id, later);
    let n = later.to_set().len() as int;
    if n < capacity {
        assert(touched_by_all(touched(keys, capacity, id), capacity, later)[n] == id);
    }
}

/// Where the keys of a cache stand after one has been put.
proof fn lemma_touched_places(keys: Seq<Seq<char>>, capacity: nat, key: Seq<char>)
    requires
        cache_wf(keys, capacity),
    ensures
        cache_wf(touched(keys, capacity, key), capacity),
        touched(keys, capacity, key)[0] == key,
        keys.contains(key) ==> {
            let at = keys.index_of(key);
            &&& 0 <= at < keys.len() && keys[at] == key
            &&& touched(keys, capacity, key).len() == keys.len()
            &&& forall|j: int|
                0 < j <= at ==> #[trigger] touched(keys, capacity, key)[j] == keys[j - 1]
            &&& forall|j: int|
                at < j < keys.len() ==> #[trigger] touched(keys, capacity, key)[j] == keys[j]
        },
        !keys.contains(key) ==> {
            &&& touched(keys, capacity, key).len() == if keys.len() == capacity {
                capacity
            } else {
                keys.len() + 1
            }
            &&& forall|j: int|
                0 < j < touched(keys, capacity, key).len() ==> #[trigger] touched(
                    keys,
                    capacity,
                    key,
                )[j] == keys[j - 1]
        },
{
    lemma_touched(keys, capacity, key);
    if keys.contains(key) {
        keys.index_of_first_ensures(key);
        let first = keys.index_of_first(key).unwrap();
        let at = keys.index_of(key);
        assert(at == first);
        assert(keys.remove_value(key) == keys.remove(at));
    }
}

/// An id that was the latest stands behind just the distinct ids that have come in since, while
/// they are fewer than the capacity; and after that the cache holds only ids that have come in
/// since.
proof fn lemma_recency(keys: Seq<Seq<char>>, capacity: nat, id: Seq<char>, later: Seq<Seq<char>>)
    requires
        cache_wf(keys, capacity),
        keys.len() > 0,
        keys[0] == id,
        !later.contains(id),
    ensures
        cache_wf(touched_by_all(keys, capacity, later), capacity),
        ({
            let after = touched_by_all(keys, capacity, later);
            let n = later.to_set().len() as int;
            if n < capacity {
                &&& n < after.len()
                &&& after[n] == id
                &&& forall|x: Seq<char>|
                    #[trigger] after.take(n).contains(x) <==> later.contains(x)
            } else {
                &&& after.len() == capacity
                &&& forall|x: Seq<char>| #[trigger] after.contains(x) ==> later.contains(x)
            }
        }),
    decreases later.len(),
{
    let after = touched_by_all(keys, capacity, later);
    let n = later.to_set().len() as int;
    if later.len() == 0 {
        assert(later.to_set() =~= Set::empty());
        assert(after.take(0) =~= Seq::empty());
    } else {
        let rest = later.drop_last();
        let key = later.last();
        let before = touched_by_all(keys, capacity, rest);
        let m = rest.to_set().len() as int;
        assert(later[later.len() - 1] == key);
        assert forall|x: Seq<char>| #[trigger]
            later.contains(x) <==> rest.contains(x) || x == key by {
            if rest.contains(x) {
                let i = choose|i: int| 0 <= i < rest.len() && rest[i] == x;
                assert(later[i] == x);
            }
            if later.contains(x) && x != key {
                let i = choose|i: int| 0 <= i < later.len() && later[i] == x;
                assert(rest[i] == x);
            }
        }
        assert(!rest.contains(id));
        assert(key != id);
        lemma_recency(keys, capacity, id, rest);
        lemma_touched_places(before, capacity, key);
        seq_to_set_is_finite(rest);
        assert(later.to_set() =~= rest.to_set().insert(key));
        assert(n == if rest.contains(key) { m } else { m + 1 });
        if m < capacity {
            lemma_recency_step(before, capacity, id, rest, key, m, n);
        } else {
            assert forall|x: Seq<char>| #[trigger] after.contains(x) implies later.contains(x) by {
                let i = choose|i: int| 0 <= i < after.len() && after[i] == x;
                if i > 0 {
                    if before.contains(key) && i > before.index_of(key) {
                        assert(before[i] == x);
                    } else {
                        assert(before[i - 1] == x);
                    }
                    assert(before.contains(x));
                }
            }
        }
    }
}

/// One more message moves an id that is still remembered back by one place, unless the message's
/// id is among those that stand before it, or pushes it out of a full cache.
proof fn lemma_recency_step(
    before: Seq<Seq<char>>,
    capacity: nat,
    id: Seq<char>,
    rest: Seq<Seq<char>>,
    key: Seq<char>,
    m: int,
    n: int,
)
    requires
        cache_wf(before, capacity),
        0 <= m < before.len(),
        before[m] == id,
        forall|x: Seq<char>| #[trigger] before.take(m).contains(x) <==> rest.contains(x),
        key != id,
        n == if rest.contains(key) {
            m
        } else {
            m + 1
        },
    ensures
        ({
            let after = touched(before, capacity, key);
            if n < capacity {
                &&& n < after.len()
                &&& after[n] == id
                &&& forall|x: Seq<char>|
                    #[trigger] after.take(n).contains(x) <==> rest.contains(x) || x == key
            } else {
                &&& after.len() == capacity
                &&& forall|x: Seq<char>| #[trigger] after.contains(x) ==> rest.contains(x) || x == key
            }
        }),
{
    let after = touched(before, capacity, key);
    lemma_touched_places(before, capacity, key);
    if rest.contains(key) {
        assert(before.take(m).contains(key));
        let k = choose|k: int| 0 <= k < m && before.take(m)[k] == key;
        assert(before[k] == key);
        assert(before.contains(key));
        let at = before.index_of(key);
        assert(at == k);
        assert(after[m] == before[m]);
        assert forall|x: Seq<char>| #[trigger]
            after.take(n).contains(x) <==> rest.contains(x) || x == key by {
            if after.take(n).contains(x) {
                let i = choose|i: int| 0 <= i < n && after.take(n)[i] == x;
                assert(after[i] == x);
                if i > at {
                    assert(before.take(m)[i] == x);
                    assert(before.take(m).contains(x));
                } else if i > 0 {
                    assert(before.take(m)[i - 1] == x);
                    assert(before.take(m).contains(x));
                }
            }
            if rest.contains(x) && x != key {
                assert(before.take(m).contains(x));
                let i = choose|i: int| 0 <= i < m && before.take(m)[i] == x;
                assert(before[i] == x);
                if i < at {
                    assert(after[i + 1] == x);
                    assert(after.take(n)[i + 1] == x);
                } else {
                    assert(after[i] == x);
                    assert(after.take(n)[i] == x);
                }
            }
            if x == key {
                assert(after.take(n)[0] == x);
            }
        }
    } else {
        if before.contains(key) {
            let at = before.index_of(key);
            assert(at > m) by {
                if at < m {
                    assert(before.take(m)[at] == key);
                    assert(before.take(m).contains(key));
                }
            }
        }
        if n < capacity {
            assert(after[m + 1] == before[m]);
            assert forall|x: Seq<char>| #[trigger]
                after.take(n).contains(x) <==> rest.contains(x) || x == key by {
                if after.take(n).contains(x) {
                    let i = choose|i: int| 0 <= i < n && after.take(n)[i] == x;
                    assert(after[i] == x);
                    if i > 0 {
                        assert(before.take(m)[i - 1] == x);
                        assert(before.take(m).contains(x));
                    }
                }
                if rest.contains(x) {
                    assert(before.take(m).contains(x));
                    let i = choose|i: int| 0 <= i < m && before.take(m)[i] == x;
                    assert(after[i + 1] == x);
                    assert(after.take(n)[i + 1] == x);
                }
                if x == key {
                    assert(after.take(n)[0] == x);
                }
            }
        } else {
            assert(!before.contains(key));
            assert forall|x: Seq<char>| #[trigger] after.contains(x) implies rest.contains(x) || x
                == key by {
                let i = choose|i: int| 0 <= i < after.len() && after[i] == x;
                if i > 0 {
                    assert(before.take(m)[i - 1] == x);
                    assert(before.take(m).contains(x));
                }
            }
        }
    }
}

/// A message that comes in again is a duplicate, of which the network does not learn, as long as
/// fewer distinct other ids than the cache has room for have come in since its id last did; after
/// that it counts as new, and reaches the network if it can be decoded.
pub proof fn law_duplicates_are_dropped<M, P>(
    keys: Seq<Seq<char>>,
    capacity: nat,
    first: GossipsubEvent<M>,
    later: Seq<Seq<char>>,
    again: GossipsubEvent<M>,
)
    requires
        cache_wf(keys, capacity),
        first is Message,
        again is Message,
        first->id.0@ == again->id.0@,
        !later.contains(again->id.0@),
    ensures
        later.to_set().len() < capacity ==> gossip_events::<M, P>(
            touched_by_all(seen_after(keys, capacity, first), capacity, later),
            again,
        ) == Seq::<BehaviourEvent<M, P>>::empty(),
        again->decoded is Ok ==> (gossip_events::<M, P>(
            touched_by_all(seen_after(keys, capacity, first), capacity, later),
            again,
        ).len() == 1 <==> later.to_set().len() >= capacity),
{
    law_recent_ids_are_remembered(keys, capacity, first->id.0@, later);
}

/// A message that can be decoded and whose id is not remembered reaches the network, once and as
/// it came.
pub proof fn law_new_messages_are_handed_on<M, P>(
    keys: Seq<Seq<char>>,
    event: GossipsubEvent<M>,
    message: M,
)
    requires
        event is Message,
        event->decoded == Ok::<M, String>(message),
        !keys.contains(event->id.0@),
    ensures
        gossip_events::<M, P>(keys, event) == seq![
            BehaviourEvent::<M, P>::PubsubMessage {
                id: event->id,
                source: event->propagation_source,
                topics: event->topics,
                message,
            },
        ],
{
}

/* RPC */

/// Pings and requests for meta data, and the answers to both, are dealt with in the behaviour; all
/// other RPC events reach the network, once and as they came.
pub proof fn law_rpc_events_reach_network<M, P>(meta_data: MetaData, message: RPCMessage<P>)
    ensures
        handled_within(message.event) ==> rpc_events::<M, P>(message).len() == 0,
        !handled_within(message.event) ==> rpc_events::<M, P>(message) == seq![
            BehaviourEvent::<M, P>::RPC(message.peer_id, message.event),
        ],
        handled_within(message.event) ==> rpc_commands(meta_data, message).len() > 0,
{
}

/// Each ping is answered, once, to the peer that sent it, under the id of the request, and with
/// our sequence number; and each request for our meta data likewise, with our meta data.
pub proof fn law_requests_are_answered<P>(meta_data: MetaData, message: RPCMessage<P>)
    ensures
        message.event matches RPCEvent::Request(id, RPCRequest::Ping(_)) ==> answers(
            rpc_commands(meta_data, message),
        ) == seq![
            Command::SendRpc(
                message.peer_id,
                RPCEvent::Response(
                    id,
                    RPCCodedResponse::Success(
                        RPCResponse::<P>::Pong(Ping { data: meta_data.seq_number }),
                    ),
                ),
            ),
        ],
        message.event matches RPCEvent::Request(id, RPCRequest::MetaData) ==> answers(
            rpc_commands(meta_data, message),
        ) == seq![
            Command::SendRpc(
                message.peer_id,
                RPCEvent::Response(
                    id,
                    RPCCodedResponse::Success(
                        RPCResponse::<P>::MetaData(
                            MetaData {
                                seq_number: meta_data.seq_number,
                                attnets: meta_data.attnets,
                            },
                        ),
                    ),
                ),
            ),
        ],
        !(message.event matches RPCEvent::Request(_, RPCRequest::Ping(_))) && !(
        message.event matches RPCEvent::Request(_, RPCRequest::MetaData)) ==> answers(
            rpc_commands(meta_data, message),
        ).len() == 0,
{
    reveal_with_fuel(Seq::filter, 3);
    let commands = rpc_commands(meta_data, message);
    if commands.len() == 2 {
        assert(commands.drop_last() =~= seq![commands[0]]);
        assert(commands.drop_last().drop_last() =~= Seq::empty());
    }
    if commands.len() == 1 {
        assert(commands.drop_last() =~= Seq::empty());
    }
    match message.event {
        RPCEvent::Request(_, RPCRequest::Ping(_)) => {
            assert(answers(commands) =~= seq![commands[1]]);
        },
        RPCEvent::Request(_, RPCRequest::MetaData) => {
            assert(answers(commands) =~= seq![commands[0]]);
        },
        _ => {
            assert(answers(commands) =~= Seq::empty());
        },
    }
}

/// Those of the commands that send something to a peer.
pub open spec fn answers<P>(commands: Seq<Command<P>>) -> Seq<Command<P>> {
    commands.filter(|command: Command<P>| command is SendRpc)
}

/// A ping that is sent after the subnets have been read anew tells the number that follows on the
/// one before, so that peers learn of the update.
pub proof fn law_pings_tell_of_updates<M, P, N: Fn(GossipTopic) -> String>(
    state: BehaviourView<M, P, N>,
    attnets: EnrBitfield,
    id: usize,
)
    requires
        state.meta_data.seq_number < u64::MAX,
    ensures
        state.with_new_attnets(attnets).meta_data.seq_number == state.meta_data.seq_number + 1,
        state.with_new_attnets(attnets).meta_data.attnets == attnets,
        ping_event::<P>(id, state.with_new_attnets(attnets).meta_data, true) == RPCEvent::<
            P,
        >::Request(id, RPCRequest::Ping(Ping { data: (state.meta_data.seq_number + 1) as u64 })),
{
}

/* Identified peers */

/// The peer manager learns of ten addresses of a peer at most: of the first that the peer lists,
/// in the peer's order, and of all of them if there are no more than ten.
pub proof fn law_identified_addresses(before: IdentifyInfo, after: IdentifyInfo)
    requires
        truncated(before, after),
    ensures
        after.listen_addrs@.len() <= MAX_IDENTIFY_ADDRESSES,
        after.listen_addrs@.is_prefix_of(before.listen_addrs@),
        before.listen_addrs@.len() <= MAX_IDENTIFY_ADDRESSES ==> after.listen_addrs@
            == before.listen_addrs@,
        before.listen_addrs@.len() > MAX_IDENTIFY_ADDRESSES ==> after.listen_addrs@.len()
            == MAX_IDENTIFY_ADDRESSES,
{
    if before.listen_addrs@.len() <= MAX_IDENTIFY_ADDRESSES {
        assert(before.listen_addrs@.take(before.listen_addrs@.len() as int)
            =~= before.listen_addrs@);
    }
}

/* Polling */

impl<M, P, G, R, I, D> PartPolled<M, P, G, R, I, D> {
    /// The part that was polled.
    pub open spec fn stage(self) -> Stage {
        match self {
            PartPolled::Gossipsub(_) => Stage::Gossipsub,
            PartPolled::Rpc(_) => Stage::Rpc,
            PartPolled::Identify(_) => Stage::Identify,
            PartPolled::Discovery(_) => Stage::Discovery,
            PartPolled::PeerManager(_) => Stage::PeerManager,
        }
    }

    /// Whether a protocol answered that it has nothing as yet.
    pub open spec fn quiet(self) -> bool {
        match self {
            PartPolled::Gossipsub(answer) => answer is Pending,
            PartPolled::Rpc(answer) => answer is Pending,
            PartPolled::Identify(answer) => answer is Pending,
            PartPolled::Discovery(answer) => answer is Pending,
            PartPolled::PeerManager(_) => false,
        }
    }

    /// Whether a protocol came up with a request for the swarm.
    pub open spec fn requesting(self) -> bool {
        match self {
            PartPolled::Gossipsub(answer) => answer matches Polled::Ready(SwarmAction::Request(_)),
            PartPolled::Rpc(answer) => answer matches Polled::Ready(SwarmAction::Request(_)),
            PartPolled::Identify(answer) => answer matches Polled::Ready(SwarmAction::Request(_)),
            PartPolled::Discovery(answer) => answer matches Polled::Ready(SwarmAction::Request(_)),
            PartPolled::PeerManager(_) => false,
        }
    }

    /// Whether the peer manager asks for a status.
    pub open spec fn asks_for_status(self) -> bool {
        self matches PartPolled::PeerManager(
            Polled::Ready(Some(PeerManagerEvent::Status(_))),
        )
    }
}

/// A round of polling: it starts with the gossip protocol, each step tells which part is polled
/// next, and the last gives the swarm its answer.
pub open spec fn round<M, P, N: Fn(GossipTopic) -> String, G, R, I, D>(
    states: Seq<BehaviourView<M, P, N>>,
    answers: Seq<PartPolled<M, P, G, R, I, D>>,
    steps: Seq<PollStep<M, P, G, R, I, D>>,
) -> bool {
    &&& 0 < answers.len() == steps.len()
    &&& states.len() == steps.len() + 1
    &&& answers[0].stage() == Stage::Gossipsub
    &&& forall|k: int|
        0 <= k < steps.len() ==> poll_stepped(
            states[k],
            answers[k],
            #[trigger] steps[k],
            states[k + 1],
        )
    &&& forall|k: int|
        0 <= k < steps.len() - 1 ==> #[trigger] steps[k] == PollStep::<M, P, G, R, I, D>::Poll(
            answers[k + 1].stage(),
        )
    &&& steps.last() is Answer
}

/// Whether a part was polled until it answered that it has nothing as yet.
pub open spec fn exhausted<M, P, G, R, I, D>(
    answers: Seq<PartPolled<M, P, G, R, I, D>>,
    stage: Stage,
) -> bool {
    exists|k: int|
        0 <= k < answers.len() && #[trigger] answers[k].stage() == stage && answers[k].quiet()
}

/// A part is polled only once all those before it in the order have nothing as yet, and goes on
/// being polled only while neither a request nor a status came up.
proof fn lemma_round_so_far<M, P, N: Fn(GossipTopic) -> String, G, R, I, D>(
    states: Seq<BehaviourView<M, P, N>>,
    answers: Seq<PartPolled<M, P, G, R, I, D>>,
    steps: Seq<PollStep<M, P, G, R, I, D>>,
    n: int,
)
    requires
        round(states, answers, steps),
        0 <= n < answers.len(),
    ensures
        forall|stage: Stage|
            stage.rank() < answers[n].stage().rank() ==> #[trigger] exhausted(answers, stage),
        forall|k: int|
            0 <= k < n ==> !(#[trigger] answers[k]).requesting() && !answers[k].asks_for_status(),
    decreases n,
{
    if n > 0 {
        lemma_round_so_far(states, answers, steps, n - 1);
        let last = answers[n - 1];
        assert(poll_stepped(states[n - 1], last, steps[n - 1], states[n]));
        assert(steps[n - 1] == PollStep::<M, P, G, R, I, D>::Poll(answers[n].stage()));
        assert forall|stage: Stage|
            stage.rank() < answers[n].stage().rank() implies #[trigger] exhausted(
            answers,
            stage,
        ) by {
            if stage.rank() >= last.stage().rank() {
                assert(answers[n - 1].stage() == stage && answers[n - 1].quiet());
            }
        }
    }
}

/// Over a round of polling, the swarm is answered that there is nothing if and only if each of the
/// four protocols was polled until it had nothing as yet, none of them came up with anything but
/// events before that, the peer manager asked for no status, and no event waits.
pub proof fn law_nothing_is_answered_for_nothing<M, P, N: Fn(GossipTopic) -> String, G, R, I, D>(
    states: Seq<BehaviourView<M, P, N>>,
    answers: Seq<PartPolled<M, P, G, R, I, D>>,
    steps: Seq<PollStep<M, P, G, R, I, D>>,
)
    requires
        round(states, answers, steps),
    ensures
        steps.last() == PollStep::<M, P, G, R, I, D>::Answer(Polled::Pending) <==> {
            &&& exhausted(answers, Stage::Gossipsub)
            &&& exhausted(answers, Stage::Rpc)
            &&& exhausted(answers, Stage::Identify)
            &&& exhausted(answers, Stage::Discovery)
            &&& forall|k: int|
                0 <= k < answers.len() ==> !(#[trigger] answers[k]).requesting()
                    && !answers[k].asks_for_status()
            &&& states[steps.len() - 1].events.len() == 0
        },
{
    let n = answers.len() - 1;
    lemma_round_so_far(states, answers, steps, n);
    assert(poll_stepped(states[n], answers[n], steps[n], states[n + 1]));
}

/// Over a round of polling, an event is handed out only once each of the four protocols was polled
/// until it had nothing as yet; and it is the status that the peer manager asks for, or, once the
/// peer manager has nothing more, the oldest of the events that wait. A request for the swarm is
/// the first that came up in the round.
pub proof fn law_rounds_end_with_what_came_up<M, P, N: Fn(GossipTopic) -> String, G, R, I, D>(
    states: Seq<BehaviourView<M, P, N>>,
    answers: Seq<PartPolled<M, P, G, R, I, D>>,
    steps: Seq<PollStep<M, P, G, R, I, D>>,
)
    requires
        round(states, answers, steps),
    ensures
        steps.last() matches PollStep::Answer(Polled::Ready(SwarmAction::GenerateEvent(event)))
            ==> {
            &&& exhausted(answers, Stage::Gossipsub)
            &&& exhausted(answers, Stage::Rpc)
            &&& exhausted(answers, Stage::Identify)
            &&& exhausted(answers, Stage::Discovery)
            &&& match answers.last() {
                PartPolled::PeerManager(Polled::Ready(Some(PeerManagerEvent::Status(peer_id)))) => {
                    event == BehaviourEvent::<M, P>::StatusPeer(peer_id)
                },
                _ => states[steps.len() - 1].events.len() > 0 && event
                    == states[steps.len() - 1].events[0],
            }
        },
        (steps.last() matches PollStep::Answer(Polled::Ready(SwarmAction::Request(_))))
            <==> answers.last().requesting(),
        forall|k: int| 0 <= k < answers.len() - 1 ==> !(#[trigger] answers[k]).requesting(),
{
    let n = answers.len() - 1;
    lemma_round_so_far(states, answers, steps, n);
    assert(poll_stepped(states[n], answers[n], steps[n], states[n + 1]));
}

/// A step of polling goes on with the same part or with the one after it. An event of the behaviour
/// is handed out, and the answer is that there is nothing, only when the peer manager was polled,
/// and that there is nothing only if no event waits.
pub proof fn law_parts_are_polled_in_order<M, P, N: Fn(GossipTopic) -> String, G, R, I, D>(
    before: BehaviourView<M, P, N>,
    polled: PartPolled<M, P, G, R, I, D>,
    step: PollStep<M, P, G, R, I, D>,
    after: BehaviourView<M, P, N>,
)
    requires
        poll_stepped(before, polled, step, after),
    ensures
        step matches PollStep::Poll(next) ==> polled.stage().rank() <= next.rank()
            <= polled.stage().rank() + 1,
        step matches PollStep::Answer(Polled::Ready(SwarmAction::GenerateEvent(_)))
            ==> polled.stage() == Stage::PeerManager,
        step matches PollStep::Answer(Polled::Pending) ==> polled.stage() == Stage::PeerManager
            && before.events.len() == 0,
{
}

/// Polling loses no event and invents none: the waiting events stay in their order, with new ones
/// behind them, but for the first, which goes when it is handed out.
pub proof fn law_polling_keeps_events<M, P, N: Fn(GossipTopic) -> String, G, R, I, D>(
    before: BehaviourView<M, P, N>,
    polled: PartPolled<M, P, G, R, I, D>,
    step: PollStep<M, P, G, R, I, D>,
    after: BehaviourView<M, P, N>,
)
    requires
        poll_stepped(before, polled, step, after),
    ensures
        before.events.is_prefix_of(after.events) || (before.events.len() > 0 && step
            == PollStep::<M, P, G, R, I, D>::Answer(
            Polled::Ready(SwarmAction::GenerateEvent(before.events[0])),
        ) && after.events == before.events.drop_first()),
        before.commands.is_prefix_of(after.commands),
{
}

/// Polling leaves the gossip protocol, the subscriptions, the fork and the meta data as they are:
/// a message that comes in is not forwarded before the network asks for it.
pub proof fn law_polling_forwards_nothing<M, P, N: Fn(GossipTopic) -> String, G, R, I, D>(
    before: BehaviourView<M, P, N>,
    polled: PartPolled<M, P, G, R, I, D>,
    step: PollStep<M, P, G, R, I, D>,
    after: BehaviourView<M, P, N>,
)
    requires
        poll_stepped(before, polled, step, after),
    ensures
        after.gossipsub == before.gossipsub,
        after.identify == before.identify,
        after.subscriptions == before.subscriptions,
        after.enr_fork_id == before.enr_fork_id,
        after.meta_data == before.meta_data,
{
}

/// While the peer manager has nothing or has ended, events are handed out in the order in which
/// they were queued, each of them once, and then the answer is that there is nothing.
pub proof fn law_events_are_handed_out_in_order<
    M,
    P,
    N: Fn(GossipTopic) -> String,
    G,
    R,
    I,
    D,
>(
    states: Seq<BehaviourView<M, P, N>>,
    answers: Seq<Polled<Option<PeerManagerEvent>>>,
    steps: Seq<PollStep<M, P, G, R, I, D>>,
    i: int,
)
    requires
        states.len() == steps.len() + 1,
        answers.len() == steps.len(),
        forall|k: int|
            0 <= k < answers.len() ==> #[trigger] answers[k] is Pending || answers[k]
                == Polled::Ready(None::<PeerManagerEvent>),
        forall|k: int|
            0 <= k < steps.len() ==> poll_stepped(
                states[k],
                PartPolled::PeerManager(answers[k]),
                #[trigger] steps[k],
                states[k + 1],
            ),
        0 <= i < steps.len(),
    ensures
        i < states[0].events.len() ==> steps[i] == PollStep::<M, P, G, R, I, D>::Answer(
            Polled::Ready(SwarmAction::GenerateEvent(states[0].events[i])),
        ),
        i >= states[0].events.len() ==> steps[i] == PollStep::<M, P, G, R, I, D>::Answer(
            Polled::Pending,
        ),
        states[i + 1].events == states[0].events.skip(
            if i + 1 <= states[0].events.len() {
                i + 1
            } else {
                states[0].events.len() as int
            },
        ),
    decreases i,
{
    let queued = states[0].events;
    if i > 0 {
        law_events_are_handed_out_in_order(states, answers, steps, i - 1);
    } else {
        assert(queued.skip(0) =~= queued);
    }
    assert(answers[i] is Pending || answers[i] == Polled::Ready(None::<PeerManagerEvent>));
    assert(poll_stepped(states[i], PartPolled::PeerManager(answers[i]), steps[i], states[i + 1]));
    if i < queued.len() {
        assert(states[i].events == queued.skip(i));
        assert(queued.skip(i).drop_first() =~= queued.skip(i + 1));
    }
}

/* The websocket server */

/// A server runs once it has been initialized, bound and asked for its address, in that order.
pub proof fn law_start_sequence()
    ensures
        next_stage(StartStage::Initializing) == StartStage::Binding,
        next_stage(next_stage(StartStage::Initializing)) == StartStage::ReadingLocalAddr,
        next_stage(next_stage(next_stage(StartStage::Initializing))) == StartStage::Running,
{
}

/// Servers on the same listening address bind to different addresses if their ports differ.
pub proof fn law_ports_are_told_apart(a: Config, b: Config)
    requires
        a.listen_address@ == b.listen_address@,
        a.port != b.port,
    ensures
        server_address(a) != server_address(b),
{
    lemma_decimal_value(a.port as nat);
    lemma_decimal_value(b.port as nat);
    let head = a.listen_address@ + ":"@;
    let from = head.len() as int;
    assert(server_address(a).skip(from) =~= decimal(a.port as nat));
    assert(server_address(b).skip(from) =~= decimal(b.port as nat));
}

} // verus!
