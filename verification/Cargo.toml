[package]
name = "fanout_relay"
version = "0.1.0"
edition = "2021"
publish = false

[dependencies]
actix = "=0.13.5"
actix-cors = "=0.7.2"
actix-rt = "=2.15.0"
actix-web = { version = "=4.18.1", default-features = false, features = ["macros", "ws"] }
actix-web-actors = "=4.3.1"
bytes = "=1.12.1"
futures = "=0.3.34"
mongodb = "=3.9.1"
redis = { version = "=1.8.0", default-features = false, features = ["aio", "tokio-comp"] }
serde = { version = "=1.0.229", features = ["derive"] }
serde_json = "=1.0.154"
tokio = { version = "=1.54.1", features = ["macros", "rt", "sync", "time"] }
uuid = { version = "=1.29.0", features = ["v4"] }
