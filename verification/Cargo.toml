[package]
name = "scrubby"
version = "0.1.0"
edition = "2021"
publish = false

[dependencies]
mlua = { version = "*", features = ["lua54", "vendored", "serialize"] }
serde = { version = "*", features = ["derive"] }
serde_json = "*"
base64 = "*"
md5 = "*"
image = "*"
ureq = "*"
scraper = "*"
