[package]
name = "agent_control"
version = "0.1.0"
edition = "2021"
publish = false

[dependencies]
dashmap = "6"
flume = "0.11"
futures = "0.3"
serde = { version = "1", features = ["derive"] }
serde_json = "1"
thiserror = "2"
tokio = { version = "1", features = ["rt", "sync"] }
uuid = { version = "1", features = ["v4"] }
