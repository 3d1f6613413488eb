[package]
name = "chipr"
version = "0.1.0"
edition = "2021"
publish = false

[dependencies]
fastrand = "*"
macroquad = { version = "*", default-features = false }
ticker = "*"
