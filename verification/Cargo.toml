[package]
name = "k7s_kube"
version = "0.1.0"
edition = "2021"
publish = false

[dependencies]
base64 = "*"
chrono = "*"
flate2 = "*"
futures = "*"
http = "*"
k8s-openapi = { version = "*", features = ["latest"] }
kube = { version = "*", default-features = false, features = ["client", "config", "ws"] }
reqwest = { version = "*", default-features = false, features = ["json"] }
serde = { version = "*", features = ["derive"] }
serde_json = "*"
tar = "*"
tokio = { version = "*", features = ["full"] }
tracing = "*"
uuid = { version = "*", features = ["v4"] }
yaml_serde = "*"
