[package]
name = "markspace"
version = "0.1.0"
edition = "2021"
publish = false

[dependencies]
anyhow = "*"
comrak = "*"
emojis = "*"
serde_json = "*"
serde_yaml = "*"
sha2 = "*"
