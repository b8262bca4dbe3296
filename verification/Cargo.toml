[package]
name = "locale_canonicalizer"
version = "0.1.0"
edition = "2021"
publish = false

[dependencies]
serde = { version = "1", features = ["derive"] }
toml = "0.8"
sha2 = "0.10"
crlify = "*"
