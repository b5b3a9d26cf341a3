[package]
name = "neutron-ml2-guardian"
version = "0.1.0"
edition = "2021"
publish = false

[dependencies]
anyhow = "1"
axum = "*"
k8s-openapi = { version = "*", features = ["latest"] }
kube = { version = "*", features = ["ws"] }
opentelemetry = "*"
opentelemetry-appender-tracing = "*"
opentelemetry-otlp = { version = "*", features = ["grpc-tonic"] }
opentelemetry_sdk = "*"
prometheus = { version = "*", default-features = false }
regex = "1"
serde = { version = "1", features = ["derive"] }
serde_json = "1"
serde_yaml = "*"
thiserror = "*"
tokio = { version = "1", features = ["full"] }
tracing = "*"
tracing-opentelemetry = "*"
tracing-subscriber = { version = "*", features = ["env-filter", "json"] }
