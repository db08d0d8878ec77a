[package]
name = "herdr-sidebar"
version = "0.2.0"
edition = "2021"
publish = false

[dependencies]
anyhow = "1"
nix = { version = "*", features = ["signal", "process"] }
serde = { version = "1", features = ["derive"] }
serde_json = "1"
