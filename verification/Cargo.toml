[package]
name = "koharu"
version = "0.1.0"
edition = "2021"
publish = false

[dependencies]
percent-encoding = "2"
alphanumeric-sort = "1"
url = "2"
serde = { version = "1", features = ["derive"] }
serde_json = "1"
