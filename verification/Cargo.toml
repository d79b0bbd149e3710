[package]
name = "pumpkin-inventory"
version = "0.1.0"
edition = "2021"
publish = false

[dependencies]
crossbeam-utils = "0.8"
tokio = { version = "1", default-features = false, features = ["sync"] }
