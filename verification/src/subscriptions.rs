//! The list of the topics that the node is subscribed to: a set, kept in the order in which the
//! topics were added.

use vstd::prelude::*;

use crate::types::GossipTopic;

verus! {

/// The list after `topic` has been added to it.
pub open spec fn with_topic(topics: Seq<GossipTopic>, topic: GossipTopic) -> Seq<GossipTopic> {
    if topics.contains(topic) {
        topics
    } else {
        topics.push(topic)
    }
}

/// The list after `topic` has been taken out of it.
pub open spec fn without_topic(topics: Seq<GossipTopic>, topic: GossipTopic) -> Seq<GossipTopic> {
    if topics.contains(topic) {
        topics.remove(topics.index_of(topic))
    } else {
        topics
    }
}

/// The list with each topic kept once, where it first occurs: the topics are added in turn.
pub open spec fn distinct(topics: Seq<GossipTopic>) -> Seq<GossipTopic>
    decreases topics.len(),
{
    if topics.len() == 0 {
        Seq::empty()
    } else {
        with_topic(distinct(topics.drop_last()), topics.last())
    }
}

/// The list of the same topics on another fork: the counterpart of each is added in turn.
pub open spec fn on_fork(topics: Seq<GossipTopic>, fork_digest: [u8; 4]) -> Seq<GossipTopic>
    decreases topics.len(),
{
    if topics.len() == 0 {
        Seq::empty()
    } else {
        with_topic(on_fork(topics.drop_last(), fork_digest), topics.last().on_fork(fork_digest))
    }
}

/// Adds a topic to the list, unless it is there already.
pub fn add_topic(topics: &mut Vec<GossipTopic>, topic: GossipTopic)
    ensures
        final(topics)@ == with_topic(old(topics)@, topic),
{
    let mut i: usize = 0;
    while i < topics.len()
        invariant
            i <= topics.len(),
            topics@ == old(topics)@,
            forall|j: int| 0 <= j < i ==> topics@[j] != topic,
        decreases topics.len() - i,
    {
        if topics[i].same(&topic) {
            assert(topics@[i as int] == topic);
            return ;
        }
        i = i + 1;
    }
    topics.push(topic);
}

/// Takes a topic out of the list, if it is there.
pub fn remove_topic(topics: &mut Vec<GossipTopic>, topic: &GossipTopic)
    requires
        old(topics)@.no_duplicates(),
    ensures
        final(topics)@ == without_topic(old(topics)@, *topic),
{
    let mut i: usize = 0;
    while i < topics.len()
        invariant
            i <= topics.len(),
            topics@ == old(topics)@,
            topics@.no_duplicates(),
            forall|j: int| 0 <= j < i ==> topics@[j] != *topic,
        decreases topics.len() - i,
    {
        if topics[i].same(topic) {
            proof {
                assert(topics@[i as int] == *topic);
                assert(topics@.index_of(*topic) == i);
            }
            topics.remove(i);
            return ;
        }
        i = i + 1;
    }
}

/// Makes a list that holds each of the topics once.
pub fn distinct_topics(topics: &Vec<GossipTopic>) -> (list: Vec<GossipTopic>)
    ensures
        list@ == distinct(topics@),
{
    let mut list: Vec<GossipTopic> = Vec::new();
    let mut i: usize = 0;
    while i < topics.len()
        invariant
            i <= topics.len(),
            list@ == distinct(topics@.take(i as int)),
        decreases topics.len() - i,
    {
        add_topic(&mut list, topics[i]);
        proof {
            assert(topics@.take(i + 1).drop_last() =~= topics@.take(i as int));
        }
        i = i + 1;
    }
    assert(topics@.take(topics@.len() as int) =~= topics@);
    list
}

/// Adding a topic adds it to the set of topics, and the list stays free of repetitions.
pub proof fn lemma_with_topic(topics: Seq<GossipTopic>, topic: GossipTopic)
    requires
        topics.no_duplicates(),
    ensures
        with_topic(topics, topic).no_duplicates(),
        with_topic(topics, topic).to_set() == topics.to_set().insert(topic),
{
    let after = with_topic(topics, topic);
    assert forall|t: GossipTopic| after.contains(t) <==> topics.contains(t) || t == topic by {
        if !topics.contains(topic) {
            assert(after[topics.len() as int] == topic);
            if topics.contains(t) {
                let i = choose|i: int| 0 <= i < topics.len() && topics[i] == t;
                assert(after[i] == t);
            }
        }
    }
    assert(after.to_set() =~= topics.to_set().insert(topic));
}

/// Taking a topic out removes it from the set of topics, and the list stays free of repetitions.
pub proof fn lemma_without_topic(topics: Seq<GossipTopic>, topic: GossipTopic)
    requires
        topics.no_duplicates(),
    ensures
        without_topic(topics, topic).no_duplicates(),
        without_topic(topics, topic).to_set() == topics.to_set().remove(topic),
{
    let after = without_topic(topics, topic);
    if topics.contains(topic) {
        let at = topics.index_of(topic);
        assert(0 <= at < topics.len() && topics[at] == topic);
        assert forall|t: GossipTopic| after.contains(t) <==> topics.contains(t) && t != topic by {
            if topics.contains(t) && t != topic {
                let i = choose|i: int| 0 <= i < topics.len() && topics[i] == t;
                if i < at {
                    assert(after[i] == t);
                } else {
                    assert(after[i - 1] == t);
                }
            }
            if after.contains(t) {
                let i = choose|i: int| 0 <= i < after.len() && after[i] == t;
                if i < at {
                    assert(topics[i] == t);
                } else {
                    assert(topics[i + 1] == t);
                }
            }
        }
    }
    assert(after.to_set() =~= topics.to_set().remove(topic));
}

/// A list with each topic kept once is free of repetitions and holds the same topics; and it is the
/// list itself if that has no repetitions.
pub proof fn lemma_distinct(topics: Seq<GossipTopic>)
    ensures
        distinct(topics).no_duplicates(),
        distinct(topics).to_set() == topics.to_set(),
        topics.no_duplicates() ==> distinct(topics) == topics,
    decreases topics.len(),
{
    if topics.len() == 0 {
        assert(distinct(topics).to_set() =~= topics.to_set());
        assert(distinct(topics) =~= topics);
    } else {
        let rest = topics.drop_last();
        let last = topics.last();
        lemma_distinct(rest);
        lemma_with_topic(distinct(rest), last);
        assert(rest.push(last) =~= topics);
        assert forall|t: GossipTopic| topics.contains(t) <==> rest.contains(t) || t == last by {
            if rest.contains(t) {
                let i = choose|i: int| 0 <= i < rest.len() && rest[i] == t;
                assert(topics[i] == t);
            }
            if topics.contains(t) && t != last {
                let i = choose|i: int| 0 <= i < topics.len() && topics[i] == t;
                assert(rest[i] == t);
            }
            if t == last {
                assert(topics[topics.len() - 1] == t);
            }
        }
        assert(distinct(topics).to_set() =~= topics.to_set());
        if topics.no_duplicates() {
            assert(rest.no_duplicates());
            assert(!rest.contains(last)) by {
                if rest.contains(last) {
                    let i = choose|i: int| 0 <= i < rest.len() && rest[i] == last;
                    assert(topics[i] == topics[topics.len() - 1]);
                }
            }
        }
    }
}

/// On the other fork the list is free of repetitions, and holds the counterparts of the topics
/// and nothing else.
pub proof fn lemma_on_fork(topics: Seq<GossipTopic>, fork_digest: [u8; 4])
    ensures
        on_fork(topics, fork_digest).no_duplicates(),
        on_fork(topics, fork_digest).to_set() == topics.to_set().map(
            |t: GossipTopic| t.on_fork(fork_digest),
        ),
    decreases topics.len(),
{
    let move_topic = |t: GossipTopic| t.on_fork(fork_digest);
    let after = on_fork(topics, fork_digest);
    if topics.len() > 0 {
        let rest = topics.drop_last();
        lemma_on_fork(rest, fork_digest);
        lemma_with_topic(on_fork(rest, fork_digest), topics.last().on_fork(fork_digest));
        assert forall|t: GossipTopic| #[trigger]
            after.to_set().contains(t) <==> topics.to_set().map(move_topic).contains(t) by {
            if after.to_set().contains(t) {
                if t == topics.last().on_fork(fork_digest) {
                    assert(topics.to_set().contains(topics.last()));
                    assert(t == move_topic(topics.last()));
                } else {
                    assert(rest.to_set().map(move_topic).contains(t));
                    let s = choose|s: GossipTopic| #[trigger]
                        rest.to_set().contains(s) && t == move_topic(s);
                    let i = choose|i: int| 0 <= i < rest.len() && rest[i] == s;
                    assert(topics[i] == s);
                    assert(topics.to_set().contains(s));
                }
            }
            if topics.to_set().map(move_topic).contains(t) {
                let s = choose|s: GossipTopic| #[trigger]
                    topics.to_set().contains(s) && t == move_topic(s);
                let i = choose|i: int| 0 <= i < topics.len() && topics[i] == s;
                if i < rest.len() {
                    assert(rest[i] == s);
                    assert(rest.to_set().contains(s));
                    assert(rest.to_set().map(move_topic).contains(t));
                }
            }
        }
        assert(after.to_set() =~= topics.to_set().map(move_topic));
    } else {
        assert(after.to_set() =~= topics.to_set().map(move_topic));
    }
}

} // verus!
