[package]
name = "hpkgbouncer"
version = "0.1.0"
edition = "2021"
publish = false

[dependencies]
natord = "1"
url = "2"
rocket = "0.5"
rocket_prometheus = "*"
rust-s3 = "*"
toml = "*"
serde = { version = "1", features = ["derive"] }
