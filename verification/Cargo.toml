[package]
name = "kube_core"
version = "0.1.0"
edition = "2021"
publish = false

[dependencies]
k8s-openapi = { version = "=0.28.0", features = ["latest"] }
