[package]
name = "clipcrate"
version = "0.1.1"
edition = "2021"
publish = false

[dependencies]
anyhow = "1"
arboard = { version = "3", features = ["wayland-data-control"] }
clap = { version = "4", features = ["derive"] }
directories = "6"
fs2 = "0.4"
fuzzy-matcher = "0.3"
image = { version = "0.25", default-features = false, features = ["png"] }
ratatui = "0.29"
regex = "1"
serde = { version = "1", features = ["derive"] }
serde_json = "1"
toml = "0.8"
