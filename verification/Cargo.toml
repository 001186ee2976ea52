[package]
name = "zenoh_transport"
version = "0.1.0"
edition = "2021"
publish = false

[dependencies]
futures = "=0.3.34"
serde_json = "=1.0.154"
tokio = { version = "=1.54.1", features = ["macros", "rt", "rt-multi-thread", "sync", "time"] }
tokio-util = { version = "=0.7.20", features = ["rt"] }
tracing = "=0.1.44"
