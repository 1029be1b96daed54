[package]
name = "tideloom"
version = "0.1.0"
edition = "2021"
publish = false

[dependencies]
anyhow = "1"
async-trait = "0.1"
futures = "0.3"
reqwest = { version = "0.12", default-features = false }
serde = { version = "1", features = ["derive"] }
serde_json = "1"
serde_yaml = "0.9"
serverless_workflow_core = "1.0.0-alpha6.3"
thiserror = "1"
time = { version = "0.3", features = ["serde"] }
tokio-util = "0.7"
uuid = { version = "1", features = ["v4", "serde"] }
