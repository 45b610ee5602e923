[package]
name = "herdr-scratch-pane"
version = "0.1.2"
edition = "2021"
publish = false

[dependencies]
anyhow = "1"
clap = { version = "4", features = ["derive"] }
serde = { version = "1", features = ["derive"] }
serde_json = "1"
toml = "*"
toml_edit = "*"
