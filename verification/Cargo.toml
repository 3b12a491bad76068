[package]
name = "lortex"
version = "0.1.0"
edition = "2021"
publish = false

[dependencies]
uuid = { version = "1", features = ["v4"] }
chrono = { version = "0.4", default-features = false, features = ["clock", "std"] }
serde = { version = "1", features = ["derive"] }
serde_json = "1"
tokio = { version = "1", features = ["sync", "rt", "macros", "time"] }
tokio-stream = "0.1"
async-trait = "0.1"
async-stream = "0.3"
futures = "0.3"
reqwest = { version = "0.12", default-features = false, features = ["json", "stream"] }
tracing = "0.1"
thiserror = "1"
