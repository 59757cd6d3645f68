[package]
name = "block_ldnoobw"
version = "0.1.0"
edition = "2021"
publish = false

[dependencies]
clap = { version = "*", features = ["derive"] }
curl = "*"
globmatch = "*"
regex = "*"
