[package]
name = "bitchat"
version = "1.0.0"
edition = "2021"
publish = false

[dependencies]
bloomfilter = "1"
btleplug = "0.11"
chrono = "0.4"
futures = "0.3"
hex = "0.4"
rand = "0.8"
serde = { version = "1", features = ["derive"] }
serde_json = "1"
tokio = { version = "1", features = ["full"] }
uuid = { version = "1", features = ["v4"] }
