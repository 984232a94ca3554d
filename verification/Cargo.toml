[package]
name = "unified_api"
version = "0.1.0"
edition = "2021"
publish = false

[dependencies]
serde = { version = "=1.0.229", features = ["derive"] }
serde_json = "=1.0.154"
serde_yaml_ng = "=0.10.0"
bytes = "=1.12.1"
dashmap = "=6.2.1"
tokio = { version = "=1.54.1", features = ["full"] }
axum = "=0.8.9"
metrics = "=0.24.6"
tracing = "=0.1.44"
tracing-subscriber = { version = "=0.3.23", features = ["env-filter"] }
tower-http = { version = "=0.7.1", features = ["cors"] }
utoipa = "=5.5.0"
utoipa-swagger-ui = { version = "=9.0.2", features = ["axum"] }
