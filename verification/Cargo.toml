[package]
name = "creature_sim"
version = "0.1.0"
edition = "2021"
publish = false

[dependencies]
peroxide = "*"
rand = "0.8"
uuid = { version = "1", features = ["v4"] }
