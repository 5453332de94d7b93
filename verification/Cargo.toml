[package]
name = "chroma"
version = "0.1.0"
edition = "2021"
publish = false

[dependencies]
clap = { version = "4", features = ["derive"] }
hex = "0.4"
serde_json = "1"
sha3 = "0.10"
