[package]
name = "http_bench"
version = "0.1.0"
edition = "2021"
publish = false

[dependencies]
http = "0.2"
hyper = { version = "0.14", features = ["client", "http1", "http2", "tcp"] }
hyper-rustls = "0.24"
tokio = { version = "1", features = ["rt-multi-thread"] }
