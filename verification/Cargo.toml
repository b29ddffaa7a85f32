[package]
name = "overkami"
version = "0.1.0"
edition = "2021"
publish = false

[dependencies]
sysinfo = "*"
percent-encoding = "*"
uuid = { version = "*", features = ["v4"] }
serde = { version = "*", features = ["derive"] }
serde_json = "*"
dunce = "*"
