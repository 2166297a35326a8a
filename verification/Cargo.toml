[package]
name = "atmo_core"
version = "0.1.0"
edition = "2021"
publish = false

[dependencies]
cid = "*"
serde = "=1.0.229"
