[package]
name = "eth2_behaviour"
version = "0.1.0"
edition = "2021"
publish = false

[dependencies]
discv5 = "=0.1.0-alpha.5"
# Not used directly: holds the dependency of libp2p-core to the release it compiles with.
ed25519-dalek = "=1.0.0-pre.3"
futures = "=0.3.34"
libp2p = { version = "=0.19.1", default-features = false, features = ["gossipsub", "identify"] }
lru = "=0.4.3"
slog = "=2.8.2"
tokio = { version = "=0.2.25", features = ["full"] }
ws = "=0.9.2"
