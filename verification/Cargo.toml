[package]
name = "rex_cli"
version = "0.1.0"
edition = "2021"
publish = false

[dependencies]
slug = "0.1"
sha2 = "0.10"
hex = "0.4"
serde = { version = "1", features = ["derive"] }
serde_json = "1"
serde_yml = "0.0.12"
clap = { version = "4", features = ["derive"] }
anyhow = "1"
