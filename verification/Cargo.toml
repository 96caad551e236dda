[package]
name = "raftust-core"
version = "0.1.0"
edition = "2021"
publish = false

[dependencies]
rand = "0.8"
serde = { version = "1", features = ["derive"] }
serde_json = "1"
log = "0.4"
env_logger = "*"
tokio = { version = "1", features = ["rt", "net", "time"] }
axum = "*"
hyper-util = { version = "*", features = ["server-auto", "tokio", "service"] }
reqwest = { version = "*", default-features = false, features = ["blocking", "json", "rustls-tls"] }
rustls = { version = "0.23", default-features = false, features = ["ring", "std", "logging", "tls12"] }
tokio-rustls = { version = "0.26", default-features = false, features = ["ring", "logging", "tls12"] }
rcgen = "*"
