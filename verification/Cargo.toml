[package]
name = "styx_runtime"
version = "0.1.0"
edition = "2021"
publish = false

[dependencies]
url = "2"
serde = { version = "1", features = ["derive"] }
serde_json = "1"
rand = "0.9"
tokio = { version = "1", features = ["rt", "rt-multi-thread", "net", "sync", "time", "macros"] }
thiserror = "2"
bytes = "1"
reqwest = { version = "0.12", default-features = false }
