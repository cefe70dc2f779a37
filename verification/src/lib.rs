//! The network behaviour of an eth2 node, and the websocket server that its events are broadcast
//! on.
//!
//! [`behaviour::Behaviour`] combines the gossip and identify protocols of `libp2p` with an RPC
//! protocol, a discovery protocol and a peer manager. It drives the gossip protocol itself; what
//! it wants of the RPC protocol, of discovery and of the peer manager it queues as commands, to
//! be carried out by whoever owns them. [`swarm`] tells how its parts are polled.
//! [`websocket`] starts the server and sends texts to its clients.
//!
//! What the state of the behaviour is and what each operation does to it is stated in [`model`];
//! what follows is stated in [`laws`], and over any sequence of operations in [`operations`]. What
//! callers of each operation can rely on is written out in [`guarantees`].

pub mod behaviour;
pub mod gossip;
pub mod guarantees;
pub mod laws;
pub mod model;
pub mod operations;
pub mod rpc;
pub mod seen;
pub mod subscriptions;
pub mod swarm;
pub mod text;
pub mod types;
pub mod websocket;
