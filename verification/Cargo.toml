[package]
name = "glsl_array"
version = "0.1.0"
edition = "2021"
publish = false

[dependencies]
anyhow = "1"
clap = { version = "4", features = ["derive"] }
console = "*"
image = "0.25"
indicatif = "*"
