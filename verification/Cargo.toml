[package]
name = "slow"
version = "0.1.0"
edition = "2021"
publish = false

[dependencies]
byteorder = "1"
serde_json = "1"
serde = { version = "1", features = ["derive"] }
bincode = "1"
rand = "0.8"
tokio = { version = "1", features = ["net", "sync", "time", "rt", "rt-multi-thread", "macros", "io-util"] }
