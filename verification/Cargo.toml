[package]
name = "release_proxy"
version = "0.1.0"
edition = "2021"
publish = false

[dependencies]
semver = "=1.0.28"
serde = { version = "=1.0.229", features = ["derive"] }
tokio = { version = "=1.54.1", features = ["rt-multi-thread", "macros", "net", "sync", "time"] }
axum = "=0.7.9"
octocrab = "=0.47.1"
reqwest = "*"
tower = "=0.5.3"
tower-http = { version = "*", features = ["cors"] }
tracing = "=0.1.44"
tracing-subscriber = "=0.3.23"
