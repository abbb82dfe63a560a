[package]
name = "fsstorage"
version = "0.1.0"
edition = "2021"
publish = false

[dependencies]
multibase = "0.9"
serde = { version = "1", features = ["derive"] }
tempfile = "3"
