[package]
name = "raftify"
version = "0.1.0"
edition = "2021"
publish = false

[dependencies]
jopemachine-raft = "=0.7.14"
protobuf = "=2.28.0"
prost = "=0.11.9"
bincode = "=1.3.3"
serde = { version = "=1.0.229", features = ["derive"] }
serde_json = "=1.0.154"
heed = "=0.20.5"
heed-traits = "=0.20.0"
parking_lot = "=0.12.5"
slog = "=2.8.2"
thiserror = "=1.0.69"
tokio = { version = "=1.54.1", features = ["full"] }
async-trait = "=0.1.92"
bytes = "=1.12.1"
log = "=0.4.35"
chrono = "=0.4.45"
tonic = "=0.9.2"
rocksdb = { version = "=0.21.0", default-features = false }
