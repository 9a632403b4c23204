[package]
name = "dtan_server"
version = "0.1.0"
edition = "2021"
publish = false

[dependencies]
anyhow = "1"
base64 = "0.22"
clap = { version = "4", default-features = false, features = ["std", "help", "usage", "error-context", "derive"] }
config = { version = "0.15", default-features = false, features = ["yaml"] }
http-body-util = "0.1"
hyper = { version = "1", features = ["http1", "server"] }
hyper-util = { version = "0.1", features = ["tokio"] }
log = "0.4"
mainline = { version = "6", default-features = false, features = ["node"] }
nostr-lmdb = "0.44"
nostr-relay-builder = "0.44"
nostr-sdk = "0.44"
portmapper = { version = "0.10", default-features = false }
pretty_env_logger = "0.5"
serde = { version = "1", features = ["derive"] }
sha1 = "0.10"
tokio = { version = "1", features = ["full"] }
