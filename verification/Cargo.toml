[package]
name = "izole"
version = "0.1.0"
edition = "2021"
publish = false

[dependencies]
dirs = "5"
clap = { version = "4", features = ["derive"] }
dialoguer = "0.11"
libc = "0.2"
serde = { version = "1", features = ["derive"] }
serde_json = "1"
