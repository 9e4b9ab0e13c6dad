[package]
name = "d1flash"
version = "0.1.0"
edition = "2021"
publish = false

[dependencies]
rppal = "0.14"
clap = { version = "4", features = ["derive"] }
color-eyre = "0.6"
config = { version = "0.13", default-features = false, features = ["toml"] }
serde = { version = "1", features = ["derive"] }
