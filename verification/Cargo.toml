[package]
name = "azure_functions_web_adapter"
version = "0.1.0"
edition = "2021"
publish = false

[dependencies]
sha2 = "0.10"
hex = "0.4"
serde_json = "1"
hyper = { version = "1", features = ["http1", "client", "server"] }
hyper-util = { version = "0.1", features = ["client-legacy", "http1", "tokio", "server"] }
http-body-util = "0.1"
bytes = "1"
tokio = { version = "1", features = ["full"] }
libc = "0.2"
tracing = "0.1"
tracing-subscriber = { version = "0.3", features = ["env-filter"] }
