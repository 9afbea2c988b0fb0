[package]
name = "civium"
version = "0.1.0"
edition = "2021"
publish = false

[dependencies]
blake3 = "=1.8.7"
bs58 = "=0.5.1"
chacha20poly1305 = "=0.10.1"
rand = "=0.8.8"
uuid = { version = "=1.29.0", features = ["v4"] }
sha2 = "=0.10.9"
curve25519-dalek = "=4.1.3"
libp2p = { version = "=0.55.0", default-features = false, features = ["ed25519", "tokio", "tcp", "dns", "noise", "yamux", "kad", "mdns", "identify", "request-response", "cbor", "macros", "autonat", "websocket"] }
serde = { version = "=1.0.229", features = ["derive"] }
serde_json = "=1.0.154"
anyhow = "=1.0.104"
clap = { version = "=4.6.7", features = ["derive"] }
tokio = { version = "=1.54.1", features = ["rt-multi-thread", "macros", "sync"] }
futures = "=0.3.34"
