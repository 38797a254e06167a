[package]
name = "cookie_store"
version = "0.1.0"
edition = "2021"
publish = false

[dependencies]
cookie = "0.18"
idna = "*"
ron = "*"
serde = "1"
serde_derive = "1"
serde_json = "1"
time = { version = "0.3", features = ["formatting", "parsing"] }
url = "2"
