[package]
name = "audiotool"
version = "0.1.0"
edition = "2021"
publish = false

[dependencies]
anyhow = "1"
cpal = { version = "0.15", features = ["jack"] }
