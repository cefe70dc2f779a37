//! What holds over any sequence of operations of the behaviour.

use libp2p::gossipsub::Gossipsub;
use libp2p::identify::Identify;
use libp2p::PeerId;
use vstd::prelude::*;

use crate::gossip::gossip_settings;
use crate::laws::{
    law_fork_mirrored, law_memory_is_bounded, law_mirrored_otherwise,
    law_nothing_else_is_remembered, law_recent_ids_are_remembered, law_remembering_in_parts,
    law_subscribe_mirrored, law_unsubscribe_mirrored, touched_by_all,
};
use crate::model::{
    forked, gossip_events, message_propagated, messages_published, subscribed, unsubscribed,
    BehaviourEvent, BehaviourView, Command, MAX_SEEN_GOSSIP_MESSAGES,
};
use crate::seen::lemma_touched;
use crate::subscriptions::{
    distinct, lemma_distinct, lemma_on_fork, lemma_with_topic, lemma_without_topic,
};
use crate::swarm::{poll_stepped, PartPolled, PollStep, Polled, SwarmAction};
use crate::types::{EnrBitfield, EnrForkId, GossipTopic, GossipsubEvent, OutgoingMessage};

verus! {

/// An operation of the behaviour, with its arguments. An event that is dealt with outside polling
/// has the effect of the step of polling that comes up with it.
pub enum Operation<M, P, G, R, I, D> {
    Subscribe(GossipTopic),
    Unsubscribe(GossipTopic),
    LoadSubscriptions(Seq<GossipTopic>),
    Publish(Seq<OutgoingMessage>),
    Propagate(PeerId, Seq<char>),
    /// An operation that does no more than issue a command.
    Issue(Command<P>),
    SubnetUpdated(EnrBitfield),
    UpdateForkVersion(EnrForkId),
    Poll(PartPolled<M, P, G, R, I, D>),
    NextEvent,
    NextCommand,
    /// The swarm has driven the gossip protocol into this state.
    DriveGossipsub(Gossipsub),
    /// The swarm has driven the identify protocol into this state.
    DriveIdentify(Identify),
}

/// Whether an operation can lead from the state `before` to the state `after`. The swarm leaves the
/// parameters of the gossip protocol alone, and the sequence number is not raised beyond its range.
pub open spec fn operated<M, P, N: Fn(GossipTopic) -> String, G, R, I, D>(
    before: BehaviourView<M, P, N>,
    operation: Operation<M, P, G, R, I, D>,
    after: BehaviourView<M, P, N>,
) -> bool {
    match operation {
        Operation::Subscribe(topic) => exists|fresh: bool| #[trigger]
            subscribed(before, topic, fresh, after),
        Operation::Unsubscribe(topic) => exists|was_joined: bool| #[trigger]
            unsubscribed(before, topic, was_joined, after),
        Operation::LoadSubscriptions(topics) => after == (BehaviourView {
            subscriptions: distinct(topics),
            ..before
        }),
        Operation::Publish(messages) => messages_published(before, messages, after),
        Operation::Propagate(source, id) => message_propagated(before, source, id, after),
        Operation::Issue(command) => after == before.commanding(command),
        Operation::SubnetUpdated(attnets) => before.meta_data.seq_number < u64::MAX && after
            == before.with_new_attnets(attnets),
        Operation::UpdateForkVersion(enr_fork_id) => forked(before, enr_fork_id, after),
        Operation::Poll(polled) => exists|step: PollStep<M, P, G, R, I, D>| #[trigger]
            poll_stepped(before, polled, step, after),
        Operation::NextEvent => after == if before.events.len() == 0 {
            before
        } else {
            BehaviourView { events: before.events.drop_first(), ..before }
        },
        Operation::NextCommand => after == if before.commands.len() == 0 {
            before
        } else {
            BehaviourView { commands: before.commands.drop_first(), ..before }
        },
        Operation::DriveGossipsub(gossipsub) => gossip_settings(gossipsub) == before.settings
            && after == (BehaviourView { gossipsub, ..before }),
        Operation::DriveIdentify(identify) => after == (BehaviourView { identify, ..before }),
    }
}

/// Whether the operations lead from each of the states to the next.
pub open spec fn happened<M, P, N: Fn(GossipTopic) -> String, G, R, I, D>(
    states: Seq<BehaviourView<M, P, N>>,
    operations: Seq<Operation<M, P, G, R, I, D>>,
) -> bool {
    &&& states.len() == operations.len() + 1
    &&& forall|k: int|
        0 <= k < operations.len() ==> operated(
            states[k],
            #[trigger] operations[k],
            states[k + 1],
        )
}

/// Every operation keeps what holds of the state at all times. Of the gossip protocol that the
/// swarm drives, this takes no more than that its parameters stay what they were.
pub proof fn law_operations_keep_wf<M, P, N: Fn(GossipTopic) -> String, G, R, I, D>(
    before: BehaviourView<M, P, N>,
    operation: Operation<M, P, G, R, I, D>,
    after: BehaviourView<M, P, N>,
)
    requires
        before.wf(),
        operated(before, operation, after),
    ensures
        after.wf(),
        after.settings == before.settings,
        after.topic_name == before.topic_name,
        after.seen_capacity == before.seen_capacity,
{
    match operation {
        Operation::Subscribe(topic) => {
            lemma_with_topic(before.subscriptions, topic);
        },
        Operation::Unsubscribe(topic) => {
            lemma_without_topic(before.subscriptions, topic);
        },
        Operation::LoadSubscriptions(topics) => {
            lemma_distinct(topics);
        },
        Operation::UpdateForkVersion(enr_fork_id) => {
            lemma_on_fork(before.subscriptions, enr_fork_id.fork_digest);
        },
        Operation::Poll(PartPolled::Gossipsub(Polled::Ready(SwarmAction::GenerateEvent(event)))) => {
            if event is Message {
                lemma_touched(before.seen, before.seen_capacity, event->id.0@);
            }
        },
        _ => {},
    }
}

/// What holds of the state at all times holds after any sequence of operations.
pub proof fn law_wf_always<M, P, N: Fn(GossipTopic) -> String, G, R, I, D>(
    states: Seq<BehaviourView<M, P, N>>,
    operations: Seq<Operation<M, P, G, R, I, D>>,
    i: int,
)
    requires
        happened(states, operations),
        states[0].wf(),
        0 <= i < states.len(),
    ensures
        states[i].wf(),
        states[i].seen_capacity == states[0].seen_capacity,
    decreases i,
{
    if i > 0 {
        law_wf_always(states, operations, i - 1);
        assert(operated(states[i - 1], operations[i - 1], states[i]));
        law_operations_keep_wf(states[i - 1], operations[i - 1], states[i]);
    }
}

/// Whether an operation keeps the list of subscriptions in step with the gossip protocol:
/// subscribing and moving to another fork do if topics are shared with peers at all, unsubscribing
/// does if the topic can be told apart from the others in the list, taking the list from elsewhere
/// need not, the swarm does if it leaves the subscriptions of the gossip protocol alone, and all
/// else does.
pub open spec fn keeps_step<M, P, N: Fn(GossipTopic) -> String, G, R, I, D>(
    before: BehaviourView<M, P, N>,
    operation: Operation<M, P, G, R, I, D>,
    after: BehaviourView<M, P, N>,
) -> bool {
    match operation {
        Operation::Subscribe(_) => before.settings.mesh_n > 0,
        Operation::UpdateForkVersion(_) => before.settings.mesh_n > 0,
        Operation::Unsubscribe(topic) => before.told_apart(topic),
        Operation::LoadSubscriptions(_) => false,
        Operation::DriveGossipsub(_) => after.joined() == before.joined(),
        _ => true,
    }
}

/// The list of subscriptions stays in step with the gossip protocol over an operation.
pub proof fn law_operations_keep_mirrored<M, P, N: Fn(GossipTopic) -> String, G, R, I, D>(
    before: BehaviourView<M, P, N>,
    operation: Operation<M, P, G, R, I, D>,
    after: BehaviourView<M, P, N>,
)
    requires
        before.wf(),
        before.mirrored(),
        operated(before, operation, after),
        keeps_step(before, operation, after),
    ensures
        after.mirrored(),
{
    law_operations_keep_wf(before, operation, after);
    match operation {
        Operation::Subscribe(topic) => {
            let fresh = choose|fresh: bool| #[trigger] subscribed(before, topic, fresh, after);
            law_subscribe_mirrored(before, topic, fresh, after);
        },
        Operation::Unsubscribe(topic) => {
            let was_joined = choose|was_joined: bool| #[trigger]
                unsubscribed(before, topic, was_joined, after);
            law_unsubscribe_mirrored(before, topic, was_joined, after);
        },
        Operation::UpdateForkVersion(enr_fork_id) => {
            law_fork_mirrored(before, enr_fork_id, after);
        },
        _ => {
            law_mirrored_otherwise(before, after);
        },
    }
}

/// The list of subscriptions stays in step with the gossip protocol over any sequence of
/// operations.
pub proof fn law_mirrored_always<M, P, N: Fn(GossipTopic) -> String, G, R, I, D>(
    states: Seq<BehaviourView<M, P, N>>,
    operations: Seq<Operation<M, P, G, R, I, D>>,
    i: int,
)
    requires
        happened(states, operations),
        states[0].wf(),
        states[0].mirrored(),
        forall|k: int|
            0 <= k < operations.len() ==> keeps_step(
                states[k],
                #[trigger] operations[k],
                states[k + 1],
            ),
        0 <= i < states.len(),
    ensures
        states[i].mirrored(),
    decreases i,
{
    if i > 0 {
        law_mirrored_always(states, operations, i - 1);
        law_wf_always(states, operations, i - 1);
        assert(operated(states[i - 1], operations[i - 1], states[i]));
        law_operations_keep_mirrored(states[i - 1], operations[i - 1], states[i]);
    }
}

/* The sequence number */

/// How many of the operations have the subnets read anew.
pub open spec fn updates<M, P, G, R, I, D>(operations: Seq<Operation<M, P, G, R, I, D>>) -> nat
    decreases operations.len(),
{
    if operations.len() == 0 {
        0
    } else {
        updates(operations.drop_last()) + if operations.last() is SubnetUpdated {
            1nat
        } else {
            0nat
        }
    }
}

/// The sequence number counts the updates of the subnets: over any sequence of operations it never
/// falls, and grows by one with each update and with nothing else.
pub proof fn law_sequence_number_counts_updates<
    M,
    P,
    N: Fn(GossipTopic) -> String,
    G,
    R,
    I,
    D,
>(
    states: Seq<BehaviourView<M, P, N>>,
    operations: Seq<Operation<M, P, G, R, I, D>>,
    i: int,
    j: int,
)
    requires
        happened(states, operations),
        0 <= i <= j < states.len(),
    ensures
        states[j].meta_data.seq_number == states[i].meta_data.seq_number + updates(
            operations.subrange(i, j),
        ),
        states[i].meta_data.seq_number <= states[j].meta_data.seq_number,
        (exists|k: int| i <= k < j && #[trigger] operations[k] is SubnetUpdated)
            ==> states[i].meta_data.seq_number < states[j].meta_data.seq_number,
    decreases j - i,
{
    let done = operations.subrange(i, j);
    if i < j {
        law_sequence_number_counts_updates(states, operations, i, j - 1);
        assert(done.drop_last() =~= operations.subrange(i, j - 1));
        assert(done.last() == operations[j - 1]);
        assert(operated(states[j - 1], operations[j - 1], states[j]));
        if exists|k: int| i <= k < j && #[trigger] operations[k] is SubnetUpdated {
            let k = choose|k: int| i <= k < j && #[trigger] operations[k] is SubnetUpdated;
            if k < j - 1 {
                assert(i <= k < j - 1 && operations[k] is SubnetUpdated);
            }
        }
    }
}

/* Received gossip messages */

/// The ids of the gossip messages that the operations deal with, in order.
pub open spec fn received_ids<M, P, G, R, I, D>(
    operations: Seq<Operation<M, P, G, R, I, D>>,
) -> Seq<Seq<char>>
    decreases operations.len(),
{
    if operations.len() == 0 {
        Seq::empty()
    } else {
        let earlier = received_ids(operations.drop_last());
        match operations.last() {
            Operation::Poll(
                PartPolled::Gossipsub(
                    Polled::Ready(SwarmAction::GenerateEvent(GossipsubEvent::Message { id, .. })),
                ),
            ) => earlier.push(id.0@),
            _ => earlier,
        }
    }
}

/// What is remembered is made up by the messages that have come in, whatever else was done.
pub proof fn law_only_messages_are_remembered<M, P, N: Fn(GossipTopic) -> String, G, R, I, D>(
    states: Seq<BehaviourView<M, P, N>>,
    operations: Seq<Operation<M, P, G, R, I, D>>,
)
    requires
        happened(states, operations),
    ensures
        states.last().seen_capacity == states[0].seen_capacity,
        states.last().seen == touched_by_all(
            states[0].seen,
            states[0].seen_capacity,
            received_ids(operations),
        ),
    decreases operations.len(),
{
    if operations.len() > 0 {
        let rest = operations.drop_last();
        let earlier = states.drop_last();
        assert forall|k: int| 0 <= k < rest.len() implies operated(
            earlier[k],
            #[trigger] rest[k],
            earlier[k + 1],
        ) by {
            assert(operated(states[k], operations[k], states[k + 1]));
        }
        law_only_messages_are_remembered(earlier, rest);
        let n = operations.len() - 1;
        assert(operated(states[n], operations[n], states[n + 1]));
        let ids = received_ids(operations);
        if ids != received_ids(rest) {
            assert(ids.drop_last() =~= received_ids(rest));
        }
        match operations.last() {
            Operation::Poll(
                PartPolled::Gossipsub(
                    Polled::Ready(SwarmAction::GenerateEvent(GossipsubEvent::Message { id, .. })),
                ),
            ) => {
                assert(ids.drop_last() =~= received_ids(rest));
                assert(ids.last() == id.0@);
            },
            _ => {},
        }
    }
}

/// Over any sequence of operations from the set-up of the behaviour on, a message that can be
/// decoded reaches the network if and only if its id has not come in before, or at least a hundred
/// thousand distinct other ids have come in since it last did. At most that many ids are
/// remembered.
pub proof fn law_messages_reach_network_once<M, P, N: Fn(GossipTopic) -> String, G, R, I, D>(
    states: Seq<BehaviourView<M, P, N>>,
    operations: Seq<Operation<M, P, G, R, I, D>>,
    event: GossipsubEvent<M>,
    last: int,
)
    requires
        happened(states, operations),
        states[0].seen == Seq::<Seq<char>>::empty(),
        states[0].seen_capacity == MAX_SEEN_GOSSIP_MESSAGES,
        event is Message,
        event->decoded is Ok,
    ensures
        states.last().seen.len() <= MAX_SEEN_GOSSIP_MESSAGES,
        !received_ids(operations).contains(event->id.0@) ==> gossip_events::<M, P>(
            states.last().seen,
            event,
        ).len() == 1,
        0 <= last < received_ids(operations).len() && received_ids(operations)[last]
            == event->id.0@ && !received_ids(operations).skip(last + 1).contains(event->id.0@) ==> (
        gossip_events::<M, P>(states.last().seen, event).len() == 1 <==> received_ids(
            operations,
        ).skip(last + 1).to_set().len() >= MAX_SEEN_GOSSIP_MESSAGES),
        gossip_events::<M, P>(states.last().seen, event).len() == 1 || gossip_events::<M, P>(
            states.last().seen,
            event,
        ) == Seq::<BehaviourEvent<M, P>>::empty(),
{
    let capacity = MAX_SEEN_GOSSIP_MESSAGES as nat;
    let empty = Seq::<Seq<char>>::empty();
    let ids = received_ids(operations);
    let id = event->id.0@;
    law_only_messages_are_remembered(states, operations);
    law_memory_is_bounded(empty, capacity, ids);
    if states.last().seen.contains(id) {
        law_nothing_else_is_remembered(empty, capacity, ids, id);
    }
    if 0 <= last < ids.len() && ids[last] == id && !ids.skip(last + 1).contains(id) {
        let earlier = ids.take(last);
        let later = ids.skip(last + 1);
        assert(earlier.push(id) + later =~= ids);
        assert(earlier.push(id).drop_last() =~= earlier);
        law_remembering_in_parts(empty, capacity, earlier.push(id), later);
        law_memory_is_bounded(empty, capacity, earlier);
        law_recent_ids_are_remembered(
            touched_by_all(empty, capacity, earlier),
            capacity,
            id,
            later,
        );
    }
}

} // verus!
