[package]
name = "urlrules"
version = "0.1.0"
edition = "2021"
publish = false

[dependencies]
regex = "*"
url = "*"
percent-encoding = "*"
serde = { version = "*", features = ["derive"] }
