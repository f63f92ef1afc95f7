[package]
name = "network_csm"
version = "0.1.0"
edition = "2021"
publish = false

[dependencies]
cbored = "*"
hex = "0.4"
thiserror = "*"
tokio = { version = "1", features = ["io-util", "macros", "net", "rt", "sync", "time"] }
tracing = "0.1"
