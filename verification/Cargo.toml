[package]
name = "lambda-gateway"
version = "0.1.0"
edition = "2021"
publish = false

[dependencies]
uuid = { version = "1", features = ["v4", "serde"] }
fastrand = "2"
rand = "0.8"
serde_json = "1"
serde = { version = "1", features = ["derive"] }
serde_with = "3"
chrono = { version = "0.4", features = ["serde"] }
http = "1"
http-serde = "2"
http-body-util = "0.1"
hyper = { version = "1", features = ["server", "http1"] }
hyper-util = { version = "0.1", features = ["tokio"] }
tokio = { version = "1", features = ["rt-multi-thread", "macros", "sync", "time", "net"] }
bollard = "0.19"
reqwest = { version = "0.12", default-features = false, features = ["json"] }
tracing = "0.1"
tracing-subscriber = { version = "0.3", features = ["env-filter"] }
thiserror = "2"
lazy_static = "1"
