[package]
name = "geetest"
version = "0.1.0"
edition = "2021"
publish = false

[dependencies]
md5 = "0.7"
sha2 = "0.10"
hmac = "0.12"
rand = "0.8"
hyper = { version = "0.14", features = ["client", "server", "http1", "http2", "tcp"] }
hyper-tls = "0.5"
serde = { version = "1", features = ["derive"] }
serde_json = "1"
tokio = { version = "1", features = ["rt-multi-thread", "macros"] }
log = "0.4"
