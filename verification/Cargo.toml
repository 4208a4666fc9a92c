[package]
name = "gamegirl"
version = "0.1.0"
edition = "2021"
publish = false

[dependencies]
arrayvec = "0.7"
serde = { version = "1", features = ["derive"] }
bincode = "1"
zstd = "0.12"
