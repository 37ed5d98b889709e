[package]
name = "bitmap_indexer"
version = "0.1.0"
edition = "2021"
publish = false

[dependencies]
serde = { version = "=1.0.229", features = ["derive"] }
serde_json = "=1.0.151"
serde_cbor = "=0.11.2"
tokio = { version = "=1.53.2", features = ["rt-multi-thread", "macros", "time"] }
reqwest = { version = "=0.12.28", default-features = false, features = ["json"] }
rusqlite = { version = "=0.31.0", features = ["bundled"] }
libp2p = { version = "=0.53.2", features = ["gossipsub", "kad", "tcp", "tokio", "noise", "yamux", "macros"] }
log = "=0.4.34"
env_logger = "=0.11.11"
clap = { version = "=4.6.7", features = ["derive"] }
