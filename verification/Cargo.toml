[package]
name = "anda_extension"
version = "0.1.0"
edition = "2021"
publish = false

[dependencies]
anda_core = "=0.17.1"
async-trait = "=0.1.92"
ic_auth_types = { version = "=0.10.5", features = ["xid"] }
rand = "=0.10.3"
serde_json = "=1.0.154"
tokio = { version = "=1.54.1", features = ["fs", "io-util", "macros", "process", "rt", "sync", "time"] }
