[package]
name = "hook"
version = "0.1.0"
edition = "2021"
publish = false

[dependencies]
colored_json = "3"
futures-util = "0.3"
hyper = { version = "0.14", features = ["full"] }
lazy_static = "1"
rustls-pemfile = "1"
serde_json = "1"
tls-listener = { version = "0.5", features = ["rustls", "hyper-h1", "hyper-h2"] }
tokio = { version = "1", features = ["full"] }
tokio-rustls = "0.23"
uuid = { version = "1", features = ["v4"] }
