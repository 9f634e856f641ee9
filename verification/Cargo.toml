[package]
name = "typed_db"
version = "0.1.0"
edition = "2021"
publish = false

[dependencies]
sled = "0.34.7"
borsh = "1"
serde = { version = "1", features = ["derive"] }
anyhow = "1"
log = "0.4"
