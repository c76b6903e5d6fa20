[package]
name = "rust_jaccard"
version = "0.1.0"
edition = "2021"
publish = false

[dependencies]
sha2 = "0.10"
anyhow = "1"
arrow = { version = "*", default-features = false }
parquet = { version = "*", default-features = false, features = ["arrow", "snap"] }
chrono = { version = "0.4", default-features = false, features = ["clock"] }
clap = "4"
env_logger = "*"
log = "0.4"
rayon = "1"
walkdir = "2"
