[package]
name = "logenough"
version = "0.1.0"
edition = "2021"
publish = false

[dependencies]
circular-buffer = "=1.2.1"
ctrlc = "=3.5.2"
eframe = { version = "=0.31.1", default-features = false, features = ["default_fonts", "glow", "x11"] }
parking_lot = "=0.12.5"
