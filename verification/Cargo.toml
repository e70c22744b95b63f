[package]
name = "connection_handler"
version = "0.1.0"
edition = "2021"
publish = false

[dependencies]
aes-gcm = "0.10"
futures = "0.3"
parking_lot = "0.12"
rand = "0.8"
tokio = { version = "1", features = ["full"] }
tracing = "0.1"
