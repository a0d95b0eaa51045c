[package]
name = "gamebot"
version = "0.1.0"
edition = "2021"
publish = false

[dependencies]
discord = { version = "0.8", default-features = false }
rand = "0.4"
serde = { version = "1", features = ["derive"] }
serde_derive = "1"
serde_json = "1"
