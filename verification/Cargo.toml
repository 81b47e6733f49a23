[package]
name = "lineart"
version = "0.1.0"
edition = "2021"
publish = false

[dependencies]
clap = { version = "4", features = ["derive"] }
font-loader = "0.11"
rusttype = "0.9"
