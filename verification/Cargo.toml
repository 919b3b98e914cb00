[package]
name = "listup_law"
version = "0.1.0"
edition = "2021"
publish = false

[dependencies]
quick-xml = "*"
csv = "*"
encoding_rs = "*"
serde = { version = "*", features = ["derive"] }
serde_json = "*"
