[package]
name = "solitaire"
version = "0.1.0"
edition = "2021"

[dependencies]
futures = "=0.3.34"
macroquad = { version = "=0.3.26", default-features = false }
