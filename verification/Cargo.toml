[package]
name = "web3"
version = "0.8.0"
edition = "2021"
publish = false

[dependencies]
base64 = "0.10"
url = "1.7"
serde = { version = "1", features = ["derive"] }
serde_json = "1"
jsonrpc-core = "11"
ethabi = "8"
ethereum-types = "0.6"
futures = "0.1"
tokio = "0.1"
tokio-uds = "0.2"
hyper = "0.12"
websocket = { version = "0.23", default-features = false, features = ["async"] }
parking_lot = "0.9"
