[package]
name = "sus"
version = "0.1.0"
edition = "2021"
publish = false

[dependencies]
nix = { version = "*", features = ["user", "process"] }
users = "*"
serde = { version = "*", features = ["derive"] }
serde_json = "*"
