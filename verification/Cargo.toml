[package]
name = "malachite_core"
version = "0.1.0"
edition = "2021"
publish = false

[dependencies]
starknet-core = "*"
serde = { version = "1", features = ["derive"] }
async-trait = "0.1"
tokio = { version = "1", features = ["time"] }
bytesize = "1"
bytes = "1"
