[package]
name = "kubekitty"
version = "0.1.0"
edition = "2021"
publish = false

[dependencies]
futures = "=0.3.34"
k8s-openapi = { version = "=0.27.1", features = ["latest"] }
kube = "=3.1.0"
serde = { version = "=1.0.229", features = ["derive"] }
serde_json = "=1.0.151"
serde_yaml = "=0.9.34"
tokio = { version = "=1.53.2", features = ["full"] }
tracing = "=0.1.44"
tracing-subscriber = { version = "=0.3.23", features = ["env-filter"] }
warp = { version = "=0.4.3", features = ["server"] }
