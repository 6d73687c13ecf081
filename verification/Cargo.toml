[package]
name = "testspec"
version = "0.1.0"
edition = "2021"
publish = false

[dependencies]
anyhow = "*"
clap = { version = "*", features = ["derive"] }
mktemp = "*"
regex = "*"
serde_yaml = "*"
xlsxwriter = "*"
