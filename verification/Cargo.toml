[package]
name = "diverter"
version = "0.1.0"
edition = "2021"
publish = false

[dependencies]
atty = "*"
clap = { version = "*", features = ["derive"] }
thiserror = "*"
