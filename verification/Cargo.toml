[package]
name = "siphon"
version = "0.1.0"
edition = "2021"
publish = false

[dependencies]
dashmap = "=6.2.1"
ipnet = "=2.12.2"
md5 = "=0.8.1"
sha2 = "0.10"
uuid = { version = "=1.29.0", features = ["v4"] }
serde_json = "=1.0.154"
pyo3 = { version = "=0.30.1", features = ["abi3-py310", "extension-module"] }
pyo3-async-runtimes = { version = "=0.30.0", features = ["tokio-runtime"] }
reqwest = { version = "=0.13.5", default-features = false }
tokio = { version = "=1.54.1", features = ["rt-multi-thread", "sync", "time", "macros"] }
tracing = "=0.1.44"
