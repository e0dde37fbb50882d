[package]
name = "guac_actix"
version = "0.1.0"
edition = "2021"
publish = false

[dependencies]
actix = "*"
clarity = "*"
failure = "*"
futures = "*"
log = "*"
num256 = "*"
serde = { version = "*", features = ["derive"] }
