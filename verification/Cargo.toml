[package]
name = "suchain"
version = "0.1.0"
edition = "2021"
publish = false

[dependencies]
sha3 = "*"
hex = "*"
serde = { version = "*", features = ["derive"] }
serde_json = "*"
