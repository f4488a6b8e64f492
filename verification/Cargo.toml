[package]
name = "pump_feed"
version = "0.1.0"
edition = "2021"
publish = false

[dependencies]
anyhow = "*"
axum = "*"
bs58 = "*"
futures = "*"
rustls = "*"
tokio = { version = "*", features = ["rt-multi-thread", "macros", "signal", "time", "net", "sync"] }
yellowstone-grpc-client = "*"
yellowstone-grpc-proto = "*"
