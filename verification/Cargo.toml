[package]
name = "whitenoise_core"
version = "0.1.0"
edition = "2021"
publish = false

[dependencies]
hex = "0.4"
serde_json = "1"
bech32 = "0.11"
chrono = "0.4"
