[package]
name = "pipy_rs"
version = "0.1.0"
edition = "2021"
publish = false

[dependencies]
serde_json = "*"
libc = "*"
reqwest = { version = "*", default-features = false }
