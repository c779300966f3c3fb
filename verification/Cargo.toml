[package]
name = "kube_compose"
version = "0.1.0"
edition = "2021"
publish = false

[dependencies]
yaml-rust = "0.4"
ignore = "*"
clap = { version = "*", features = ["derive"] }
anyhow = "*"

[dev-dependencies]
serde_yaml = "*"
