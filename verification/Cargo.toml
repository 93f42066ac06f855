[package]
name = "portctl"
version = "0.1.0"
edition = "2021"
publish = false

[dependencies]
toml = "*"
urlencoding = "*"
serde_json = "*"
tempfile = "*"
reqwest = { version = "*", default-features = false, features = ["blocking", "json", "rustls-tls"] }
