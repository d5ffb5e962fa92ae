[package]
name = "zbx_chain"
version = "0.1.0"
edition = "2021"
publish = false

[dependencies]
sha3 = "0.10"
sha2 = "0.10"
hex = "0.4"
k256 = { version = "0.13", features = ["ecdsa"] }
fips204 = "0.4"
rand = "0.8"
rand_core = { version = "0.6", features = ["getrandom"] }
zeroize = { version = "1", features = ["derive"] }
serde = { version = "1", features = ["derive"] }
serde_json = "1"
serde-big-array = "0.5"
thiserror = "1"
tracing = "0.1"
tokio = { version = "1", features = ["rt-multi-thread", "macros", "time", "sync"] }
reqwest = { version = "0.12", default-features = false, features = ["json"] }
