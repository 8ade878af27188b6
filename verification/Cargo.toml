[package]
name = "flowscope"
version = "0.1.0"
edition = "2021"
publish = false

[dependencies]
bytes = "1"
etherparse = "*"
hex = "0.4"
httparse = "1"
serde = { version = "1", features = ["derive"] }
serde_json = "1"
sha2 = "0.10"

[dev-dependencies]
