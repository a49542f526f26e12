[package]
name = "traveling_salesman"
version = "0.1.0"
edition = "2021"
publish = false

[dependencies]
rand = "0.8"
eframe = { version = "0.22", default-features = false, features = ["default_fonts", "glow"] }
