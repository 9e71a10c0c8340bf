[package]
name = "tape_dialects"
version = "0.1.0"
edition = "2021"
publish = false

[dependencies]
base64 = "0.22"
regex = "1"
clap = { version = "4", features = ["derive"] }
