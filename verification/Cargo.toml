[package]
name = "pingora_core"
version = "0.1.0"
edition = "2021"
publish = false

[dependencies]
bytes = "=1.12.1"
pingora-error = "=0.9.1"
pingora-s2n = "=0.9.1"
pingora-timeout = "=0.9.1"
proxy-header = "=0.1.3"
tokio = { version = "=1.54.1", features = ["io-util"] }
