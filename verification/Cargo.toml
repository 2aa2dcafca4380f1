[package]
name = "process_builder"
version = "0.1.0"
edition = "2021"
publish = false

[dependencies]
which = "*"
eyre = "*"
serde = "*"
serde_json = "*"
serde_yaml = "*"
shell-escape = "*"
