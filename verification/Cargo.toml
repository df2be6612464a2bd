[package]
name = "rpgtool"
version = "0.1.0"
edition = "2021"
publish = false

[dependencies]
alox-48 = "=0.7.1"
flate2 = "1"
ruby-prism = "=2.1.0"
serde = { version = "=1.0.229", features = ["derive"] }
serde_json = "=1.0.154"
