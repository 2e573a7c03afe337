[package]
name = "sandbox-egress"
version = "0.1.0"
edition = "2021"
publish = false

[dependencies]
hickory-resolver = "*"
http = "1"
httparse = "1"
ipnet = "2"
rustls = { version = "0.23", default-features = false, features = ["std", "ring"] }
thiserror = "2"
tokio = { version = "1", features = ["rt-multi-thread", "net", "io-util", "time", "sync", "macros"] }
tokio-util = { version = "0.7", features = ["rt"] }
