[package]
name = "position_manager"
version = "0.1.0"
edition = "2021"
publish = false

[dependencies]
uuid = { version = "=1.29.0", features = ["v4"] }
serde = { version = "=1.0.229", features = ["derive"] }
tokio = { version = "=1.54.1", features = ["sync", "rt-multi-thread", "macros", "io-util", "io-std"] }
tonic = "=0.14.6"
async-trait = "=0.1.92"
stopwatch = "=0.0.7"
