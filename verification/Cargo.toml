[package]
name = "cascii"
version = "0.1.0"
edition = "2021"
publish = false

[dependencies]
anyhow = "1"
clap = { version = "4", features = ["derive"] }
dialoguer = "*"
dirs = "*"
image = { version = "0.25", default-features = false, features = ["png", "jpeg"] }
indicatif = { version = "0.17", features = ["rayon"] }
rayon = "1"
walkdir = "2"
