[package]
name = "nessus"
version = "0.1.0"
edition = "2021"
publish = false

[dependencies]
futures = "=0.1.31"
hyper = "=0.11.27"
serde = "=1.0.229"
serde_derive = "=1.0.229"
serde_json = "=1.0.151"
tokio-core = "=0.1.18"
url = "=1.7.2"
