[package]
name = "sctp"
version = "0.1.0"
edition = "2021"
publish = false

[dependencies]
libc = "=0.2.191"
tokio = { version = "=1.54.1", features = ["net", "sync", "rt", "io-util"] }
