[package]
name = "mojaloop_api"
version = "0.1.0"
edition = "2021"
publish = false

[dependencies]
httparse = "1"
hyper = { version = "0.14", default-features = false, features = ["client", "http1"] }
http = "0.2"

[dev-dependencies]
serde_json = "1"
