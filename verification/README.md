# eth2_behaviour

The network behaviour of an eth2 node: it combines the gossip and identify protocols of `libp2p`
with an RPC protocol, a discovery protocol and a peer manager, and broadcasts texts to the clients
of a websocket server.

- `src/` is the library, verified with Verus.
  - `behaviour.rs` holds the behaviour and its operations, `swarm.rs` how it is polled.
  - `model.rs` states what the operations do, `laws.rs` what follows, and
    `operations.rs` what holds over any sequence of them.
  - `types.rs` and `rpc.rs` hold the values that it reads and hands on.
  - `subscriptions.rs` keeps the list of topics that the node is subscribed to.
  - `gossip.rs`, `seen.rs` and `websocket.rs` hold what is believed of the crates `libp2p`, `lru`
    and `ws`; the latter also starts the websocket server.
- `app/` runs the behaviour in a `libp2p` swarm and the websocket server on a `tokio` runtime. The
  RPC protocol, discovery and the peer manager are given to it through the traits in `app/parts.rs`.
- `Cargo.toml` names `ed25519-dalek` only to hold it to the release that `libp2p` compiles with.
- `tests/` runs the library with the real crates.

What the behaviour wants of the RPC protocol, of discovery and of the peer manager it queues as
commands, which are to be carried out in order after each operation.
