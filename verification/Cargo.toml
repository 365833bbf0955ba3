[package]
name = "optics"
version = "0.1.0"
edition = "2021"
publish = false

[dependencies]
openraft = { version = "0.8", features = ["serde"] }
tonic = "0.10"
prost = "0.12"
tokio = { version = "1", features = ["full"] }
serde = { version = "1", features = ["derive"] }
serde_json = "1"
clap = { version = "4", features = ["derive", "env"] }
tempfile = "3"
hostname = "0.3"
async-trait = "0.1"
futures = "0.3"
tokio-stream = "0.1"
tracing = "0.1"
anyhow = "1"
async-std = "1"
rust-s3 = { version = "0.33", default-features = false, features = ["tokio-rustls-tls"] }
