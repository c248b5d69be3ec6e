[package]
name = "mavkit"
version = "0.1.0"
edition = "2021"
publish = false

[dependencies]
mavlink = { version = "*", default-features = false, features = ["common", "std"] }
