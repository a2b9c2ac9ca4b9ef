[package]
name = "muta_service"
version = "0.1.0"
edition = "2021"
publish = false

[dependencies]
bytes = "=1.12.1"
futures = "=0.1.31"
hasher = { version = "=0.1.4", features = ["hash-keccak"] }
log = "=0.4.34"
numext-fixed-hash = "=0.1.6"
proc-macro2 = "=1.0.107"
quote = "=1.0.47"
rocksdb = "=0.25.0"
serde = { version = "=1.0.229", features = ["derive"] }
serde_json = "=1.0.154"
syn = { version = "=1.0.109", features = ["full"] }
