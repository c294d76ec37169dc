[package]
name = "proxy_forward"
version = "0.1.0"
edition = "2021"
publish = false

[dependencies]
ctrlc = "3"
failure = "0.1"
futures = "0.1"
getopts = "0.2"
signal-hook = "0.1"
tokio-core = "0.1"
tokio-io = "0.1"
