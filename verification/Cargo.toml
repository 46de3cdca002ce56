[package]
name = "rodio-wsola"
version = "0.1.0"
edition = "2021"
publish = false

[dependencies]
rodio = { version = "0.22", default-features = false }
