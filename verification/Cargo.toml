[package]
name = "dns_resolve"
version = "0.1.0"
edition = "2021"
publish = false

[dependencies]
http = "1"
hyper-util = { version = "0.1", features = ["client", "client-legacy", "http1", "tokio"] }
tower-service = "0.3"
