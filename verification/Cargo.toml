[package]
name = "rustern-core"
version = "0.1.0"
edition = "2021"
publish = false

[dependencies]
chrono = "=0.4.45"
chrono-tz = "=0.10.4"
dirs-next = "=2.0.0"
fastrand = "=2.5.0"
futures = "=0.3.34"
jaq-core = "=3.1.2"
jaq-json = { version = "=2.0.3", features = ["serde", "sync"] }
jaq-std = "=3.0.4"
jiff = "=0.2.39"
k8s-openapi = { version = "=0.29.0", features = ["latest"] }
kube = { version = "=5.0.0", features = ["client", "runtime"] }
owo-colors = "=4.4.0"
regex = "=1.13.1"
seahash = "=4.1.0"
secrecy = "=0.10.3"
serde = { version = "=1.0.229", features = ["derive"] }
serde_json = "=1.0.154"
tempfile = "=3.27.0"
thiserror = "=2.0.21"
tokio = { version = "=1.54.1", features = ["full"] }
tokio-stream = "=0.1.19"
tokio-util = "=0.7.20"
tracing = "=0.1.44"
