[package]
name = "lithc"
version = "0.1.0"
edition = "2021"
publish = false

[dependencies]
ariadne = "*"
serde = { version = "*", features = ["derive"] }
serde_json = "*"
clap = { version = "*", features = ["derive"] }
