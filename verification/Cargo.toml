[package]
name = "relay_bridge"
version = "0.1.0"
edition = "2021"
publish = false

[dependencies]
serial2 = "*"
barrage = "*"
thiserror = "*"
