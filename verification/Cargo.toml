[package]
name = "helix_db"
version = "0.1.0"
edition = "2021"
publish = false

[dependencies]
async-trait = "=0.1.92"
bytes = "=1.12.1"
futures = "=0.3.34"
parking_lot = "=0.12.5"
roaring = "=0.12.0"
serde = { version = "=1.0.229", features = ["derive"] }
serde_json = "=1.0.154"
sha2 = "=0.11.1"
siphasher = "=1.0.4"
slatedb = "=0.18.0"
tantivy = "=0.27.0"
tokio = { version = "=1.54.1", features = ["fs", "io-util", "rt", "sync", "time"] }
tracing = "=0.1.44"
uuid = { version = "=1.29.0", features = ["v4"] }
