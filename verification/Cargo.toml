[package]
name = "polyeval"
version = "0.1.0"
edition = "2021"
publish = false

[dependencies]
rand = "0.9"
k256 = { version = "0.13", default-features = false, features = ["arithmetic"] }
curve25519-dalek = "4"
