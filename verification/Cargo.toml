[package]
name = "hyper_router"
version = "0.1.0"
edition = "2021"
publish = false

[dependencies]
regex = "*"
hyper = "0.11"
futures = "0.1"
tokio-core = "0.1"
