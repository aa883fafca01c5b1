[package]
name = "nyoom_json"
version = "0.3.0"
edition = "2021"
publish = false

[dependencies]
itoa = "=1.0.18"
ryu = "=1.0.23"

[dev-dependencies]
serde_json = "1"
