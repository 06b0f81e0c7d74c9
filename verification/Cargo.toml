[package]
name = "torrent"
version = "0.1.0"
edition = "2021"
publish = false

[dependencies]
anyhow = "*"
async-channel = "*"
bytes = "*"
futures = "*"
log = "*"
reqwest = { version = "*", default-features = false }
serde = { version = "*", features = ["derive"] }
serde_bencode = "*"
serde_bytes = "*"
sha1 = "*"
structopt = "*"
tokio = { version = "*", features = ["rt", "rt-multi-thread", "macros", "net", "time", "sync", "fs", "io-util"] }
tokio-util = { version = "*", features = ["codec"] }
tracing = "*"
tracing-subscriber = "*"
