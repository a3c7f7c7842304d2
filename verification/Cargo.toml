[package]
name = "onwards"
version = "0.27.0"
edition = "2021"
publish = false

[dependencies]
anyhow = "=1.0.104"
async-trait = "=0.1.92"
axum = "=0.8.9"
axum-prometheus = "=0.10.1"
bytes = "=1.12.1"
clap = { version = "=4.6.7", features = ["derive"] }
futures-util = "=0.3.34"
governor = { version = "=0.10.4", default-features = false, features = ["std"] }
http-body-util = "=0.1.5"
hyper = "=1.12.0"
hyper-tls = "=0.6.0"
hyper-util = { version = "=0.1.21", features = ["client", "client-legacy", "http1", "http2", "tokio"] }
metrics = "=0.24.6"
opentelemetry = "=0.33.1"
opentelemetry_sdk = "=0.33.1"
rand = "=0.9.5"
serde = { version = "=1.0.229", features = ["derive"] }
serde_json = "=1.0.154"
sha2 = "=0.10.9"
subtle = "=2.6.1"
thiserror = "=2.0.21"
tokio = { version = "=1.54.1", features = ["full"] }
tower = { version = "=0.5.3", features = ["util"] }
tracing = "=0.1.44"
tracing-opentelemetry = "=0.34.0"
tracing-subscriber = { version = "=0.3.23", features = ["env-filter"] }
url = "=2.5.8"
