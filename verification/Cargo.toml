[package]
name = "rurpc"
version = "0.1.0"
edition = "2021"
publish = false

[dependencies]
byteorder = "1"
bytes = "1"
tokio = { version = "1", features = ["full"] }
