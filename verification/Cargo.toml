[package]
name = "imtlib"
version = "0.1.0"
edition = "2021"
publish = false

[dependencies]
sha2 = "*"
hex = "*"
walkdir = "*"
structopt = "*"
log = "*"
simplelog = "*"
parking_lot = "*"
serde = { version = "*", features = ["derive"] }
anyhow = "*"
