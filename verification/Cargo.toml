[package]
name = "proctime"
version = "0.1.0"
edition = "2021"
publish = false

[dependencies]
libc = "*"
tokio = { version = "*", features = ["full"] }
