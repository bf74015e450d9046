[package]
name = "magpie"
version = "0.2.0"
edition = "2021"
publish = false

[dependencies]
chrono = "*"
clap = { version = "*", features = ["derive"] }
lofty = "*"
walkdir = "*"
