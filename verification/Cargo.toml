[package]
name = "teamchat"
version = "0.1.0"
edition = "2021"
publish = false

[dependencies]
anyhow = "1"
atomicwrites = "0.3"
base64 = "0.13"
bcrypt = "0.12"
clap = { version = "3", features = ["derive"] }
ctrlc = "3"
futures-util = { version = "0.3", features = ["sink"] }
hyper = { version = "0.14", features = ["client", "http1", "tcp"] }
hyper-tls = "0.5"
jsonrpc-core = "18"
jsonrpc-core-client = { version = "18", features = ["http", "tls"] }
jsonrpc-derive = "18"
jsonrpc-http-server = "18"
local-ip-address = "0.4"
rand = "0.8"
rustls = "0.20"
rustls-pemfile = "1"
serde = { version = "1", features = ["derive"] }
serde_json = "1"
sha2 = "0.10"
tokio = { version = "1", features = ["full"] }
tokio-native-tls = "0.3"
tokio-util = { version = "0.7", features = ["codec"] }
uuid = { version = "1", features = ["v4", "serde"] }
