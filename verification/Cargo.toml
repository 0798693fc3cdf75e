[package]
name = "protest"
version = "0.1.0"
edition = "2021"
publish = false

[dependencies]
serde = { version = "=1.0.229", features = ["derive"] }
serde_json = "=1.0.154"
mime = "=0.3.17"
thiserror = "=2.0.21"
bytes = "=1.12.1"
futures-util = "=0.3.34"
tokio = { version = "=1.54.1", features = ["full"] }
tokio-stream = "=0.1.19"
tokio-util = "=0.7.20"
tracing = "=0.1.44"
tracing-subscriber = { version = "=0.3.23", features = ["env-filter"] }
quiche = "=0.30.0"
tokio-quiche = "=0.20.1"
syn = { version = "=2.0.119", features = ["full", "extra-traits"] }
quote = "=1.0.47"
proc-macro2 = "=1.0.107"
darling = "=0.20.11"
