[package]
name = "project_launcher"
version = "0.1.0"
edition = "2021"
publish = false

[dependencies]
dirs = "*"
fuzzy-matcher = "0.3"
gtk4 = "*"
regex = "1"
