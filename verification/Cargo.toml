[package]
name = "nox_terrain"
version = "0.1.0"
edition = "2021"
publish = false

[dependencies]
bracket-random = "*"
bracket-noise = "*"
flate2 = "*"
ron = "*"
parking_lot = "*"
lazy_static = "*"
ultraviolet = "*"
