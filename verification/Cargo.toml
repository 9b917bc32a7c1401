[package]
name = "tarpc_bench"
version = "0.1.0"
edition = "2021"
publish = false

[dependencies]
byteorder = "1"
bincode = "1"
serde = "1"
serde_derive = "1"
futures = "0.1"
tokio-core = "0.1"
tokio-proto = "0.1"
tokio-service = "0.1"
net2 = "0.2"
