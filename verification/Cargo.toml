[package]
name = "destructivator"
version = "0.1.0"
edition = "2021"
publish = false

[dependencies]
ignore = "*"
git2 = { version = "*", default-features = false }
config = { version = "*", default-features = false, features = ["toml"] }
