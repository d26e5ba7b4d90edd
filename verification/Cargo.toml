[package]
name = "bb8"
version = "0.4.0"
edition = "2021"
publish = false

[dependencies]
async-trait = "0.1"
futures-preview = "=0.3.0-alpha.19"
tokio-executor = "=0.2.0-alpha.6"
tokio-timer = "=0.3.0-alpha.6"
