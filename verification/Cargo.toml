[package]
name = "zknotes"
version = "0.1.0"
edition = "2021"
publish = false

[dependencies]
crypto-hashes = "=0.10.0"
figment = { version = "=0.10.19", features = ["env", "toml"] }
hmac = "=0.12.1"
rand = "=0.10.3"
serde = "=1.0.229"
serde_derive = "=1.0.229"
