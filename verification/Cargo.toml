[package]
name = "flowstate_workspace"
version = "0.1.0"
edition = "2021"
publish = false

[dependencies]
async-channel = "2"
atomicwrites = "0.4"
chrono = "0.4"
iroh = { version = "*", default-features = false }
memchr = "2"
rustc-hash = "2"
serde = { version = "1", features = ["derive"] }
serde_json = "1"
uuid = { version = "1", features = ["v4"] }
