[package]
name = "poorguelike"
version = "0.1.0"
edition = "2021"
publish = false

[dependencies]
rand = "0.8"
raylib = "3.7"
uuid = { version = "1", features = ["v4"] }
