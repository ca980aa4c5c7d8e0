[package]
name = "rig-core"
version = "0.1.0"
edition = "2021"
publish = false

[dependencies]
bytes = "1"
futures = "0.3"
http = "1"
reqwest = { version = "0.12", default-features = false, features = ["multipart", "stream"] }
reqwest-middleware = { version = "0.4", default-features = false, features = ["multipart"] }
serde = { version = "1", features = ["derive"] }
serde_json = "1"
thiserror = "2"
