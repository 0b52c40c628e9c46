[package]
name = "apparmor_policy"
version = "0.1.0"
edition = "2021"
publish = false

[dependencies]
kubewarden-policy-sdk = "=0.17.3"
k8s-openapi = { version = "=0.28.0", features = ["v1_36"] }
serde = { version = "=1.0.229", features = ["derive"] }
serde_json = "=1.0.151"
