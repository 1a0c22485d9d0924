[package]
name = "line_relay"
version = "0.1.0"
edition = "2021"
publish = false

[dependencies]
redis = "*"
serde = "*"
serde_derive = "*"
serde_json = "*"
actix = "*"
actix-web = "*"
actix-web-actors = "*"
