[package]
name = "jrpc_client"
version = "0.1.0"
edition = "2021"
publish = false

[dependencies]
serde = { version = "*", features = ["derive"] }
serde_json = "*"
bytes = "*"
tokio = { version = "*", features = ["net", "sync", "rt", "io-util"] }
tokio-util = { version = "*", features = ["codec"] }
futures = "*"
url = "*"
