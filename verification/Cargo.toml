[package]
name = "clean_repo"
version = "0.1.0"
edition = "2021"
publish = false

[dependencies]
glob = "*"
anyhow = "*"
clap = { version = "*", features = ["derive"] }
colored = "*"
git2 = "*"
indicatif = "*"
