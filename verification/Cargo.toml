[package]
name = "dlog_proof"
version = "0.1.0"
edition = "2021"
publish = false

[dependencies]
k256 = { version = "=0.13.4", features = ["arithmetic", "sha256"] }
elliptic-curve = { version = "=0.13.8", features = ["arithmetic", "sec1"] }
num-bigint = "=0.4.8"
serde = { version = "=1.0.229", features = ["derive"] }
serde_json = "=1.0.154"
axum = { version = "0.7", features = ["ws"] }
axum-extra = { version = "0.9", features = ["typed-header"] }
dashmap = "6"
futures = "0.3"
futures-util = "0.3"
tokio = { version = "1", features = ["full"] }
tower-http = { version = "0.5", features = ["fs", "trace"] }
tracing = "0.1"
tracing-subscriber = { version = "0.3", features = ["env-filter"] }
wasm-bindgen = "0.2"
wasm-bindgen-futures = "0.4"
web-sys = { version = "0.3", features = ["BinaryType", "ErrorEvent", "MessageEvent", "WebSocket", "console"] }
