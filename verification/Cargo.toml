[package]
name = "connect_proxy"
version = "0.1.0"
edition = "2021"
publish = false

[dependencies]
httparse = "1"
tokio = { version = "1", default-features = false, features = ["io-util", "macros", "net", "rt-multi-thread"] }
