[package]
name = "order_intake"
version = "0.1.0"
edition = "2021"
publish = false

[dependencies]
prost = "0.12"
prost-types = "0.12"
tokio = { version = "1", features = ["macros", "rt-multi-thread"] }
tonic = "0.11"
uuid = { version = "1", features = ["v4"] }
