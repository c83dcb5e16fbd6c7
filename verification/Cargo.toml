[package]
name = "ddd_core"
version = "0.1.0"
edition = "2021"
publish = false

[dependencies]
async-trait = "=0.1.92"
axum = "=0.7.9"
serde = { version = "=1.0.229", features = ["derive"] }
thiserror = "=1.0.69"
tokio = { version = "=1.54.1", features = ["sync", "signal", "macros", "rt-multi-thread", "net", "time"] }
tower = "=0.5.3"
tower-http = { version = "=0.6.11", features = ["catch-panic", "compression-gzip", "cors", "request-id", "timeout", "trace"] }
tracing = "=0.1.44"
tracing-subscriber = { version = "=0.3.23", features = ["env-filter", "json"] }
uuid = { version = "=1.29.0", features = ["v4"] }
