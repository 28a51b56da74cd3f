[package]
name = "sophia_x_authority"
version = "0.1.0"
edition = "2021"
publish = false

[dependencies]
rustix = { version = "1", default-features = false, features = ["fs", "std"] }
