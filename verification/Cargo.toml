[package]
name = "clonetree"
version = "0.1.0"
edition = "2021"
publish = false

[dependencies]
ignore = "*"
reflink-copy = "*"
clap = { version = "*", features = ["derive"] }
anyhow = "*"
thiserror = "*"
