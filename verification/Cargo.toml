[package]
name = "openflows"
version = "0.1.0"
edition = "2021"
publish = false

[dependencies]
serde = { version = "1", features = ["derive"] }
serde_json = "1"
chrono = { version = "0.4", default-features = false, features = ["clock", "std"] }
uuid = { version = "1", features = ["v4"] }
anyhow = "1"
tracing = "0.1"
tokio = { version = "1", features = ["rt-multi-thread", "macros", "sync", "time"] }
tokio-stream = { version = "0.1", features = ["sync"] }
futures = "0.3"
axum = "0.8"
reqwest = { version = "0.12", default-features = false, features = ["json"] }
fred = "*"
nix = { version = "*", features = ["signal", "process"] }
