[package]
name = "mbus"
version = "0.1.0"
edition = "2021"
publish = false

[dependencies]
nats = "*"
smol = "*"
futures = "*"

[dev-dependencies]
serde_json = "*"
