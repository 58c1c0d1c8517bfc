[package]
name = "arc_vault"
version = "0.1.0"
edition = "2021"
publish = false

[dependencies]
cipher = "0.4"
copypasta = { version = "0.10", default-features = false, features = ["x11"] }
flate2 = "1"
pbkdf2 = "0.12"
rand = "0.8"
salsa20 = "0.10"
serde = { version = "1", features = ["derive"] }
serde_json = "1"
sha2 = "0.10"
