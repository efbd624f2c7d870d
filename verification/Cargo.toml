[package]
name = "velton"
version = "0.1.0"
edition = "2021"
publish = false

[dependencies]
axum = "=0.8.9"
indexmap = { version = "=2.14.2", features = ["serde"] }
log = "=0.4.35"
serde = { version = "=1.0.229", features = ["derive"] }
serde_json = "=1.0.154"
serde_urlencoded = "=0.7.1"
thiserror = "=2.0.21"
tokio = { version = "=1.54.1", features = ["net", "rt", "macros"] }
tower = "=0.5.3"
