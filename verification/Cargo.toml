[package]
name = "moproxy"
version = "0.1.0"
edition = "2021"
publish = false

[dependencies]
clap = { version = "2", features = ["yaml"] }
env_logger = "0.4"
futures = "0.1"
log = "0.3"
net2 = "0.2"
nix = "0.17"
rust-ini = "0.10"
tokio-core = "0.1"
tokio-io = "0.1"
tokio-timer = "0.1"
