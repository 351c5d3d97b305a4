[package]
name = "midenc"
version = "0.1.0"
edition = "2021"
publish = false

[dependencies]
heck = "0.5"
gimli = { version = "*", default-features = false, features = ["read"] }
