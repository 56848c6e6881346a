[package]
name = "snake"
version = "0.1.0"
edition = "2021"
publish = false

[dependencies]
embedded-graphics = "0.8"
rand_core = "0.6"
serde = { version = "1", features = ["derive"] }
