[package]
name = "proxy_core"
version = "0.1.0"
edition = "2021"
publish = false

[dependencies]
zstd = "*"
futures = "0.1"
tokio = "0.1"
