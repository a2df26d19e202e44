[package]
name = "cafe_core"
version = "0.1.0"
edition = "2021"
publish = false

[dependencies]
anyhow = "=1.0.104"
base64 = "=0.22.1"
regex = "=1.13.1"
sha2 = "=0.10.9"
rand = "=0.8.8"
html2text = "=0.12.6"
serde = { version = "=1.0.229", features = ["derive"] }
serde_json = "=1.0.154"
glob = "=0.3.4"
epub = "=2.1.6"
toml = "=0.8.23"
jsonwebtoken = "=9.3.1"
rquickjs = "=0.9.0"
xml-rs = "=1.0.0"
