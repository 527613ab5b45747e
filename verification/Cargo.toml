[package]
name = "vote_gossip"
version = "0.1.0"
edition = "2021"
publish = false

[dependencies]
libp2p = { version = "0.57", features = ["ed25519", "floodsub", "macros", "mdns", "noise", "tcp", "tokio", "yamux"] }
log = "0.4"
once_cell = "1"
pretty_env_logger = "0.5"
serde = { version = "1", features = ["derive"] }
serde_json = "1"
tokio = { version = "1", features = ["macros", "rt-multi-thread", "sync"] }
