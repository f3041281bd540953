[package]
name = "wart_worker"
version = "0.1.0"
edition = "2021"
publish = false

[dependencies]
wasmtime = "=46.0.3"
uuid = { version = "=1.27.0", features = ["v4"] }
chrono = "=0.4.45"
redis = "=1.7.1"
