[package]
name = "blockchain_learning_platform"
version = "0.1.0"
edition = "2021"
publish = false

[dependencies]
rand = "0.8"
tokio = { version = "1", features = ["full"] }
chrono = "0.4"
serde = { version = "1", features = ["derive"] }
serde_json = "1"
axum = { version = "0.6", features = ["ws"] }
hyper = "0.14"
tower = { version = "0.4", features = ["limit", "util"] }
bincode = "1"
rocksdb = "0.21"
reqwest = { version = "0.11", default-features = false, features = ["json"] }
tokio-tungstenite = "0.20"
url = "2"
futures = "0.3"
