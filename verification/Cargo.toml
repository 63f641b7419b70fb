[package]
name = "hyper_client_sockets"
version = "0.1.0"
edition = "2021"
publish = false

[dependencies]
hex = "0.4"
http = "1"
hyper = "1"
hyper-util = { version = "0.1", features = ["client-legacy", "tokio"] }
tower-service = "0.3"
tokio = { version = "1", features = ["net", "io-util"] }
vsock = "0.5"
libc = "0.2"
async-io = "2"
smol-hyper = "0.1"
futures-lite = "2"
