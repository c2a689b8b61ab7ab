[package]
name = "delayed_events"
version = "0.1.0"
edition = "2021"
publish = false

[dependencies]
async-trait = "0.1"
axum = "0.8"
base64 = "0.22"
futures = "0.3"
http = "1"
rand = "*"
ruma = { version = "*", features = ["events", "client-api", "unstable-msc4140"] }
serde = { version = "1", features = ["derive"] }
serde_json = { version = "1", features = ["raw_value"] }
tokio = { version = "1", features = ["sync", "time", "macros", "rt"] }
url = "2"
