[package]
name = "redis_stream_bus"
version = "0.1.0"
edition = "2021"
publish = false

[dependencies]
redis = { version = "*", features = ["tokio-comp"] }
tokio = { version = "*", features = ["rt", "rt-multi-thread", "macros", "sync", "time"] }
futures = "*"
futures-util = "*"
async-trait = "*"
serde = { version = "*", features = ["derive"] }
serde_json = "*"
log = "*"
structopt = "*"
thiserror = "*"
