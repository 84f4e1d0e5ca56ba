[package]
name = "grammar"
version = "0.1.0"
edition = "2021"
publish = false

[dependencies]
railroad = "*"
regex = "*"
mdbook-preprocessor = "*"
pathdiff = "*"
walkdir = "*"
anyhow = "*"
semver = "*"
serde_json = "*"
