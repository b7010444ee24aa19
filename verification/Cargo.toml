[package]
name = "stomp"
version = "0.1.0"
edition = "2021"
publish = false

[dependencies]
bytes = "0.4"
futures = "0.1"
log = "0.4"
tokio = { version = "0.1", default-features = false, features = ["tcp", "codec", "io"] }
tokio-codec = "0.1"
tokio-io = "0.1"
tokio-timer = "0.2"
