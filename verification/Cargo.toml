[package]
name = "reel"
version = "0.1.0"
edition = "2021"
publish = false

[dependencies]
serde_json = "*"
percent-encoding = "*"
clap = { version = "*", features = ["derive"] }
comfy-table = "*"
reqwest = { version = "*", default-features = false, features = ["rustls-tls"] }
tokio = { version = "*", features = ["rt-multi-thread", "macros"] }
