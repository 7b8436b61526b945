[package]
name = "multipart_upload"
version = "0.1.0"
edition = "2021"
publish = false

[dependencies]
rand = "0.8"
hyper = { version = "0.14", features = ["server", "http1", "tcp"] }
tokio = { version = "1", features = ["rt-multi-thread", "macros", "net"] }
