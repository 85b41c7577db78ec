[package]
name = "transparency"
version = "0.1.0"
edition = "2021"
publish = false

[dependencies]
bytes = "=0.4.12"
futures = "=0.1.31"
h2 = "=0.1.26"
http = "=0.1.21"
httparse = "=1.2.5"
hyper = { version = "=0.11.27", default-features = false, features = ["compat"] }
log = "=0.4.35"
tokio-core = "=0.1.18"
tokio-io = "=0.1.13"
tower-service = "=0.1.0"
