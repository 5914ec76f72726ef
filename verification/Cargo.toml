[package]
name = "rctpower_protocol"
version = "0.1.0"
edition = "2021"
publish = false

[dependencies]
log = "0.4"
thiserror = "2"
tokio = { version = "1", features = ["net", "io-util", "time", "sync", "rt"] }
