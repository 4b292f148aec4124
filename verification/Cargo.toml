[package]
name = "templito"
version = "0.1.0"
edition = "2021"
publish = false

[dependencies]
chrono = "0.4"
base64 = "0.13"
pulldown-cmark = "0.9"
rand = "0.7"
regex = "1"
serde_json = "1"
toml = "0.5"
card_format = "*"
gobble = "*"
image = "0.24"
anyhow = "1"
thiserror = "1"
