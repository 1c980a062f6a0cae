[package]
name = "eschec"
version = "0.1.0"
edition = "2021"
publish = false

[dependencies]
rand = "=0.9.5"
clap = { version = "4", features = ["derive"] }
shell-words = "1"
