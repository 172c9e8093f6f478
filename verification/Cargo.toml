[package]
name = "broxy"
version = "0.1.0"
edition = "2021"
publish = false

[dependencies]
anyhow = "*"
http = "*"
http-body-util = "*"
hyper = { version = "*", features = ["full"] }
hyper-util = { version = "*", features = ["full"] }
rayon = "*"
regex = "*"
serde = { version = "*", features = ["derive"] }
serde_json = "*"
tokio = { version = "*", features = ["full"] }
tokio-rustls = "*"
tracing = "*"
tracing-subscriber = { version = "*", features = ["env-filter", "local-time", "fmt"] }
