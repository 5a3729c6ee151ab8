[package]
name = "payment_processor"
version = "0.1.0"
edition = "2021"
publish = false

[dependencies]
uuid = { version = "1", features = ["v4"] }
hex = "0.4"
tempfile = "3"
