[package]
name = "fast_requests"
version = "0.1.0"
edition = "2021"
publish = false

[dependencies]
futures = "0.3"
pyo3 = { version = "0.20", features = ["extension-module"] }
reqwest = "0.11"
tokio = { version = "1", features = ["rt-multi-thread", "macros", "time", "sync", "net", "io-util"] }

[dev-dependencies]
http = "0.2"
