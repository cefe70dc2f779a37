//! How the behaviour meets the swarm: the order in which its parts are polled, what becomes of
//! what they answer, and where the events of connections go.
//!
//! `G`, `R`, `I` and `D` are the types of the events that the gossip, RPC, identify and discovery
//! protocols exchange with their connection handlers.

use libp2p::swarm::{DialPeerCondition, NotifyHandler};
use libp2p::{Multiaddr, PeerId};
use vstd::prelude::*;

use crate::behaviour::Behaviour;
use crate::model::{
    gossip_events, identified, peer_manager_commands, peer_manager_handed_out, rpc_commands,
    rpc_events, seen_after, BehaviourEvent, BehaviourView,
};
use crate::rpc::RPCMessage;
use crate::types::{
    DiscoveryEvent, GossipTopic, GossipsubEvent, IdentifyEvent, PeerManagerEvent,
};

verus! {

/// The parts of the behaviour, in the order in which they are polled.
#[derive(Clone, Copy, Debug, PartialEq, Eq, Structural)]
pub enum Stage {
    Gossipsub,
    Rpc,
    Identify,
    Discovery,
    PeerManager,
}

impl Stage {
    /// The place of a part in the order of polling.
    pub open spec fn rank(self) -> int {
        match self {
            Stage::Gossipsub => 0,
            Stage::Rpc => 1,
            Stage::Identify => 2,
            Stage::Discovery => 3,
            Stage::PeerManager => 4,
        }
    }
}

/// What polling answers: something that is ready, or that there is nothing as yet.
#[derive(Debug, PartialEq, Eq)]
pub enum Polled<T> {
    Ready(T),
    Pending,
}

/// What the swarm is asked to do about addresses.
#[derive(Debug)]
pub enum AddressRequest {
    /// Dial the address, whoever may be reached there.
    DialAddress { address: Multiaddr },
    /// Dial the peer.
    DialPeer { peer_id: PeerId, condition: DialPeerCondition },
    /// Take note of an address at which a peer sees the local node.
    ReportObservedAddr { address: Multiaddr },
}

/// What the swarm is asked to do. `E` is the type of an event for a connection handler.
#[derive(Debug)]
pub enum SwarmRequest<E> {
    /// Something about addresses.
    Address(AddressRequest),
    /// Hand an event to a connection handler of the peer.
    NotifyHandler { peer_id: PeerId, handler: NotifyHandler, event: E },
}

/// What a part of the behaviour, or the behaviour itself, comes up with: an event `O`, or a
/// request for the swarm.
#[derive(Debug)]
pub enum SwarmAction<E, O> {
    GenerateEvent(O),
    Request(SwarmRequest<E>),
}

/// An event for the connection handler of one of the protocols.
#[derive(Debug, PartialEq, Eq)]
pub enum DelegateIn<G, R, I, D> {
    Gossipsub(G),
    RPC(R),
    Identify(I),
    Discovery(D),
}

/// An event for the connection handler of the behaviour.
#[derive(Debug, PartialEq, Eq)]
pub enum BehaviourHandlerIn<G, R, I, D> {
    Delegate(DelegateIn<G, R, I, D>),
    /// An event of the behaviour itself.
    Custom,
}

/// An event from the connection handler of one of the protocols.
#[derive(Debug, PartialEq, Eq)]
pub enum DelegateOut<G, R, I, D> {
    Gossipsub(G),
    RPC(R),
    Identify(I),
    Discovery(D),
}

/// An event from the connection handler of the behaviour.
#[derive(Debug, PartialEq, Eq)]
pub enum BehaviourHandlerOut<G, R, I, D> {
    Delegate(DelegateOut<G, R, I, D>),
    /// An event of the behaviour itself.
    Custom,
}

/// What a part of the behaviour answered when it was polled.
#[derive(Debug)]
pub enum PartPolled<M, P, G, R, I, D> {
    Gossipsub(Polled<SwarmAction<G, GossipsubEvent<M>>>),
    Rpc(Polled<SwarmAction<R, RPCMessage<P>>>),
    Identify(Polled<SwarmAction<I, IdentifyEvent>>),
    Discovery(Polled<SwarmAction<D, DiscoveryEvent>>),
    /// The stream of the peer manager's events, which may have ended.
    PeerManager(Polled<Option<PeerManagerEvent>>),
}

/// How polling goes on: with another poll of a part, or with an answer to the swarm.
#[derive(Debug)]
pub enum PollStep<M, P, G, R, I, D> {
    Poll(Stage),
    Answer(Polled<SwarmAction<BehaviourHandlerIn<G, R, I, D>, BehaviourEvent<M, P>>>),
}

/// The answer that passes a request of one of the protocols on to the swarm: the same request, but
/// that an event for the protocol's connection handler is marked as being for that protocol.
pub open spec fn passed_on<M, P, G, R, I, D, E>(
    request: SwarmRequest<E>,
    mark: spec_fn(E) -> DelegateIn<G, R, I, D>,
) -> PollStep<M, P, G, R, I, D> {
    PollStep::Answer(
        Polled::Ready(
            SwarmAction::Request(
                match request {
                    SwarmRequest::Address(request) => SwarmRequest::Address(request),
                    SwarmRequest::NotifyHandler { peer_id, handler, event } => {
                        SwarmRequest::NotifyHandler {
                            peer_id,
                            handler,
                            event: BehaviourHandlerIn::Delegate(mark(event)),
                        }
                    },
                },
            ),
        ),
    )
}

/// Passes a request about addresses on to the swarm.
fn pass_on_address<M, P, G, R, I, D>(request: AddressRequest) -> (step: PollStep<M, P, G, R, I, D>)
    ensures
        step == PollStep::<M, P, G, R, I, D>::Answer(
            Polled::Ready(SwarmAction::Request(SwarmRequest::Address(request))),
        ),
{
    PollStep::Answer(Polled::Ready(SwarmAction::Request(SwarmRequest::Address(request))))
}

/// Passes an event for a connection handler on to the swarm.
fn pass_on_event<M, P, G, R, I, D>(
    peer_id: PeerId,
    handler: NotifyHandler,
    event: DelegateIn<G, R, I, D>,
) -> (step: PollStep<M, P, G, R, I, D>)
    ensures
        step == PollStep::<M, P, G, R, I, D>::Answer(
            Polled::Ready(
                SwarmAction::Request(
                    SwarmRequest::NotifyHandler {
                        peer_id,
                        handler,
                        event: BehaviourHandlerIn::Delegate(event),
                    },
                ),
            ),
        ),
{
    let event = BehaviourHandlerIn::Delegate(event);
    PollStep::Answer(
        Polled::Ready(SwarmAction::Request(SwarmRequest::NotifyHandler { peer_id, handler, event })),
    )
}

/// What becomes of the answer of a part that was polled.
///
/// An event of the part is dealt with, and the part is polled again; a request is passed on to
/// the swarm; and where there is nothing, it is the next part's turn. When the peer manager has
/// nothing more either, the oldest event that is waiting is handed out.
pub open spec fn poll_stepped<M, P, N: Fn(GossipTopic) -> String, G, R, I, D>(
    before: BehaviourView<M, P, N>,
    polled: PartPolled<M, P, G, R, I, D>,
    step: PollStep<M, P, G, R, I, D>,
    after: BehaviourView<M, P, N>,
) -> bool {
    match polled {
        PartPolled::Gossipsub(Polled::Ready(SwarmAction::GenerateEvent(event))) => {
            &&& step == PollStep::<M, P, G, R, I, D>::Poll(Stage::Gossipsub)
            &&& after == (BehaviourView {
                events: before.events + gossip_events(before.seen, event),
                seen: seen_after(before.seen, before.seen_capacity, event),
                ..before
            })
        },
        PartPolled::Gossipsub(Polled::Ready(SwarmAction::Request(request))) => {
            &&& step == passed_on::<M, P, G, R, I, D, _>(
                request,
                |event: G| DelegateIn::<G, R, I, D>::Gossipsub(event),
            )
            &&& after == before
        },
        PartPolled::Gossipsub(Polled::Pending) => {
            &&& step == PollStep::<M, P, G, R, I, D>::Poll(Stage::Rpc)
            &&& after == before
        },
        PartPolled::Rpc(Polled::Ready(SwarmAction::GenerateEvent(message))) => {
            &&& step == PollStep::<M, P, G, R, I, D>::Poll(Stage::Rpc)
            &&& after == (BehaviourView {
                events: before.events + rpc_events(message),
                commands: before.commands + rpc_commands(before.meta_data, message),
                ..before
            })
        },
        PartPolled::Rpc(Polled::Ready(SwarmAction::Request(request))) => {
            &&& step == passed_on::<M, P, G, R, I, D, _>(
                request,
                |event: R| DelegateIn::<G, R, I, D>::RPC(event),
            )
            &&& after == before
        },
        PartPolled::Rpc(Polled::Pending) => {
            &&& step == PollStep::<M, P, G, R, I, D>::Poll(Stage::Identify)
            &&& after == before
        },
        PartPolled::Identify(Polled::Ready(SwarmAction::GenerateEvent(event))) => {
            &&& step == PollStep::<M, P, G, R, I, D>::Poll(Stage::Identify)
            &&& identified(before, event, after)
        },
        PartPolled::Identify(Polled::Ready(SwarmAction::Request(request))) => {
            &&& step == passed_on::<M, P, G, R, I, D, _>(
                request,
                |event: I| DelegateIn::<G, R, I, D>::Identify(event),
            )
            &&& after == before
        },
        PartPolled::Identify(Polled::Pending) => {
            &&& step == PollStep::<M, P, G, R, I, D>::Poll(Stage::Discovery)
            &&& after == before
        },
        PartPolled::Discovery(Polled::Ready(SwarmAction::GenerateEvent(_))) => {
            &&& step == PollStep::<M, P, G, R, I, D>::Poll(Stage::Discovery)
            &&& after == before
        },
        PartPolled::Discovery(Polled::Ready(SwarmAction::Request(request))) => {
            &&& step == passed_on::<M, P, G, R, I, D, _>(
                request,
                |event: D| DelegateIn::<G, R, I, D>::Discovery(event),
            )
            &&& after == before
        },
        PartPolled::Discovery(Polled::Pending) => {
            &&& step == PollStep::<M, P, G, R, I, D>::Poll(Stage::PeerManager)
            &&& after == before
        },
        PartPolled::PeerManager(Polled::Ready(Some(event))) => {
            &&& step == match peer_manager_handed_out::<M, P>(event) {
                Some(handed_out) => PollStep::<M, P, G, R, I, D>::Answer(
                    Polled::Ready(SwarmAction::GenerateEvent(handed_out)),
                ),
                None => PollStep::<M, P, G, R, I, D>::Poll(Stage::PeerManager),
            }
            &&& after == (BehaviourView {
                commands: before.commands + peer_manager_commands(before.meta_data, event),
                ..before
            })
        },
        PartPolled::PeerManager(Polled::Ready(None)) | PartPolled::PeerManager(Polled::Pending) => {
            if before.events.len() > 0 {
                &&& step == PollStep::<M, P, G, R, I, D>::Answer(
                    Polled::Ready(SwarmAction::GenerateEvent(before.events[0])),
                )
                &&& after == (BehaviourView { events: before.events.drop_first(), ..before })
            } else {
                &&& step == PollStep::<M, P, G, R, I, D>::Answer(Polled::Pending)
                &&& after == before
            }
        },
    }
}

impl<M, P, N: Fn(GossipTopic) -> String> Behaviour<M, P, N> {
    /// Takes one step of polling: deals with what a part of the behaviour answered, and tells
    /// which part is to be polled next, or what the swarm is to be answered. Polling starts with
    /// `Stage::Gossipsub`.
    pub fn poll<G, R, I, D>(&mut self, polled: PartPolled<M, P, G, R, I, D>) -> (step: PollStep<
        M,
        P,
        G,
        R,
        I,
        D,
    >)
        requires
            old(self)@.wf(),
        ensures
            final(self)@.wf(),
            poll_stepped(old(self)@, polled, step, final(self)@),
    {
        match polled {
            PartPolled::Gossipsub(Polled::Ready(SwarmAction::GenerateEvent(event))) => {
                self.on_gossip_event(event);
                PollStep::Poll(Stage::Gossipsub)
            },
            PartPolled::Gossipsub(Polled::Ready(SwarmAction::Request(request))) => match request {
                SwarmRequest::Address(request) => pass_on_address(request),
                SwarmRequest::NotifyHandler { peer_id, handler, event } => {
                    pass_on_event(peer_id, handler, DelegateIn::Gossipsub(event))
                },
            },
            PartPolled::Gossipsub(Polled::Pending) => PollStep::Poll(Stage::Rpc),
            PartPolled::Rpc(Polled::Ready(SwarmAction::GenerateEvent(message))) => {
                self.on_rpc_event(message);
                PollStep::Poll(Stage::Rpc)
            },
            PartPolled::Rpc(Polled::Ready(SwarmAction::Request(request))) => match request {
                SwarmRequest::Address(request) => pass_on_address(request),
                SwarmRequest::NotifyHandler { peer_id, handler, event } => {
                    pass_on_event(peer_id, handler, DelegateIn::RPC(event))
                },
            },
            PartPolled::Rpc(Polled::Pending) => PollStep::Poll(Stage::Identify),
            PartPolled::Identify(Polled::Ready(SwarmAction::GenerateEvent(event))) => {
                self.on_identify_event(event);
                PollStep::Poll(Stage::Identify)
            },
            PartPolled::Identify(Polled::Ready(SwarmAction::Request(request))) => match request {
                SwarmRequest::Address(request) => pass_on_address(request),
                SwarmRequest::NotifyHandler { peer_id, handler, event } => {
                    pass_on_event(peer_id, handler, DelegateIn::Identify(event))
                },
            },
            PartPolled::Identify(Polled::Pending) => PollStep::Poll(Stage::Discovery),
            PartPolled::Discovery(Polled::Ready(SwarmAction::GenerateEvent(event))) => {
                self.on_discovery_event(event);
                PollStep::Poll(Stage::Discovery)
            },
            PartPolled::Discovery(Polled::Ready(SwarmAction::Request(request))) => match request {
                SwarmRequest::Address(request) => pass_on_address(request),
                SwarmRequest::NotifyHandler { peer_id, handler, event } => {
                    pass_on_event(peer_id, handler, DelegateIn::Discovery(event))
                },
            },
            PartPolled::Discovery(Polled::Pending) => PollStep::Poll(Stage::PeerManager),
            PartPolled::PeerManager(answer) => self.custom_poll(answer),
        }
    }

    /// The last stage of polling: deals with what the peer manager answered, and consumes the
    /// events list once the peer manager has nothing more.
    fn custom_poll<G, R, I, D>(&mut self, answer: Polled<Option<PeerManagerEvent>>) -> (step:
        PollStep<M, P, G, R, I, D>)
        requires
            old(self)@.wf(),
        ensures
            final(self)@.wf(),
            poll_stepped(
                old(self)@,
                PartPolled::<M, P, G, R, I, D>::PeerManager(answer),
                step,
                final(self)@,
            ),
    {
        match answer {
            Polled::Ready(Some(event)) => match self.on_peer_manager_event(event) {
                Some(handed_out) => PollStep::Answer(
                    Polled::Ready(SwarmAction::GenerateEvent(handed_out)),
                ),
                None => PollStep::Poll(Stage::PeerManager),
            },
            // nothing as yet, or the peer manager ended
            Polled::Ready(None) | Polled::Pending => match self.next_event() {
                Some(event) => PollStep::Answer(Polled::Ready(SwarmAction::GenerateEvent(event))),
                None => PollStep::Answer(Polled::Pending),
            },
        }
    }
}

/// The protocol that an event of a connection goes to, if it goes to one.
pub fn inject_event<G, R, I, D>(event: BehaviourHandlerOut<G, R, I, D>) -> (delegate: Option<
    DelegateOut<G, R, I, D>,
>)
    ensures
        delegate == match event {
            BehaviourHandlerOut::Delegate(delegate) => Some(delegate),
            BehaviourHandlerOut::Custom => None,
        },
{
    match event {
        BehaviourHandlerOut::Delegate(delegate) => Some(delegate),
        BehaviourHandlerOut::Custom => None,
    }
}

/// The addresses of a peer, out of those that each of the protocols knows: one list after the
/// other.
pub fn addresses_of_peer(
    gossipsub: Vec<Multiaddr>,
    eth2_rpc: Vec<Multiaddr>,
    identify: Vec<Multiaddr>,
    discovery: Vec<Multiaddr>,
) -> (addresses: Vec<Multiaddr>)
    ensures
        addresses@ == gossipsub@ + eth2_rpc@ + identify@ + discovery@,
{
    let mut out = gossipsub;
    let mut eth2_rpc = eth2_rpc;
    let mut identify = identify;
    let mut discovery = discovery;
    out.append(&mut eth2_rpc);
    out.append(&mut identify);
    out.append(&mut discovery);
    out
}

} // verus!
