[package]
name = "tropaion"
version = "0.1.0"
edition = "2021"
publish = false

[dependencies]
ordermap = "*"
thiserror = "*"
strum = "*"
strum_macros = "*"
