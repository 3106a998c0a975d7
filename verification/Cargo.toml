[package]
name = "utmvm"
version = "0.1.0"
edition = "2021"
publish = false

[dependencies]
rand = "0.8"
serde_json = "1"
thiserror = "1"
tokio = { version = "1", default-features = false, features = ["process", "fs", "time", "io-util", "rt"] }
