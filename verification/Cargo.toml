[package]
name = "archive_replicator"
version = "0.1.0"
edition = "2021"
publish = false

[dependencies]
anyhow = "=1.0.104"
blake3 = { version = "=1.8.7", default-features = false }
bytes = "=1.12.1"
chrono = { version = "=0.4.45", default-features = false, features = ["now", "alloc"] }
hex = "=0.4.3"
iroh = { version = "=1.4.1", default-features = false }
iroh-blobs = { version = "=0.104.0", default-features = false, features = ["fs-store"] }
iroh-gossip = { version = "=0.101.0", default-features = false, features = ["net"] }
n0-future = "=0.3.2"
reqwest = { version = "=0.13.5", default-features = false, features = ["json"] }
serde = { version = "=1.0.229", features = ["derive"] }
serde_json = "=1.0.154"
tokio = { version = "=1.54.1", default-features = false, features = ["rt", "sync", "time", "fs"] }
tracing = "=0.1.44"
