//! The RPC traffic as far as the behaviour reads it. `P` stands for the content of the messages
//! and errors that the behaviour hands on unread.

use libp2p::PeerId;
use std::sync::Arc;
use vstd::prelude::*;

use crate::types::{MetaData, RequestId};

verus! {

/// The content of a ping and of its answer: the sender's meta data sequence number.
#[derive(Clone, Copy, Debug, PartialEq, Eq, Structural)]
pub struct Ping {
    pub data: u64,
}

/// The RPC protocols.
#[derive(Clone, Copy, Debug, PartialEq, Eq, Structural)]
pub enum Protocol {
    Status,
    Goodbye,
    BlocksByRange,
    BlocksByRoot,
    Ping,
    MetaData,
}

/// What one peer asks of another.
#[derive(Debug, PartialEq, Eq)]
pub enum RPCRequest<P> {
    Status(P),
    Ping(Ping),
    MetaData,
    /// Any other request.
    Other(P),
}

/// What a request is answered with.
#[derive(Debug, PartialEq, Eq)]
pub enum RPCResponse<P> {
    Status(P),
    Pong(Ping),
    MetaData(MetaData),
    /// Any other response.
    Other(P),
}

/// A response with the code that says how the request was served.
#[derive(Debug, PartialEq, Eq)]
pub enum RPCCodedResponse<P> {
    /// The request was served.
    Success(RPCResponse<P>),
    /// Any other response code, or the end of a stream of responses.
    Other(P),
}

/// What is sent to a peer, or comes from one or from the RPC protocol itself.
#[derive(Debug, PartialEq, Eq)]
pub enum RPCEvent<P> {
    Request(RequestId, RPCRequest<P>),
    Response(RequestId, RPCCodedResponse<P>),
    /// An exchange failed; what went wrong is handed on unread.
    Error(RequestId, Protocol, Arc<P>),
}

/// An RPC event and the peer that it came from.
#[derive(Debug, PartialEq, Eq)]
pub struct RPCMessage<P> {
    pub peer_id: PeerId,
    pub event: RPCEvent<P>,
}

} // verus!
