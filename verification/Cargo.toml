[package]
name = "rpipe"
version = "0.1.0"
edition = "2021"
publish = false

[dependencies]
serde_json = "*"
uuid = { version = "*", features = ["v4"] }
anyhow = "*"
axum = "*"
clap = { version = "*", features = ["derive", "env"] }
log = "*"
reqwest = { version = "*", default-features = false }
simple_logger = "*"
tokio = { version = "*", features = ["rt-multi-thread", "macros", "net"] }
