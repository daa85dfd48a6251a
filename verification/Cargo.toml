[package]
name = "sshx_server"
version = "0.1.0"
edition = "2021"
publish = false

[dependencies]
base64 = "0.21"
hmac = "0.12"
sha2 = "0.10"
rand = "0.8"
tokio = { version = "1", features = ["sync", "time", "rt-multi-thread", "macros"] }
