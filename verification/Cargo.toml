[package]
name = "shoutrrr_spec"
version = "0.1.0"
edition = "2021"
publish = false

[dependencies]
clap = { version = "*", features = ["derive"] }
color-eyre = "*"
eyre = "*"
genco = "*"
serde = { version = "*", features = ["derive"] }
serde_yaml = "*"
strsim = "*"
