[package]
name = "umbral"
version = "0.1.0"
edition = "2021"
publish = false

[dependencies]
bytes = "*"
deadpool = "*"
futures = "*"
tokio = { version = "*", features = ["net", "io-util", "rt", "fs"] }
