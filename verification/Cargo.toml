[package]
name = "text_cleaner"
version = "0.1.0"
edition = "2021"
publish = false

[dependencies]
rfd = "*"

[dev-dependencies]
regex = "*"
