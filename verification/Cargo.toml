[package]
name = "subst"
version = "0.3.0"
edition = "2021"
publish = false

[dependencies]
memchr = "2"
unicode-width = "0.1"
serde = "1"
serde_json = "1"
serde_yaml = "0.9"
toml = "0.8"
indexmap = "2"
