[package]
name = "mcdebug_launcher"
version = "0.1.0"
edition = "2021"
publish = false

[dependencies]
regex = "1"
sha1 = "0.10"
sha2 = "0.10"
serde = { version = "1", features = ["derive"] }
serde_json = "1"
