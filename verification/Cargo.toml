[package]
name = "tsp_rust"
version = "0.1.0"
edition = "2021"
publish = false

[dependencies]
serde_json = { version = "1", features = ["preserve_order"] }
serde = { version = "1", features = ["derive"] }
matchit = "0.7"
http = "1"
http-body = "1"
http-body-util = "0.1"
bytes = "1"
hyper = { version = "1", features = ["client", "server", "http1"] }
hyper-util = { version = "0.1", features = ["client-legacy", "http1", "tokio", "service", "server"] }
tokio = { version = "1", features = ["full"] }
tower = { version = "0.4", features = ["util"] }
futures = "0.3"
anyhow = "1"
tempdir = "0.3"
