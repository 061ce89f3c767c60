[package]
name = "iiif_tiler"
version = "0.1.0"
edition = "2021"
publish = false

[dependencies]
anyhow = "*"
clap = { version = "*", features = ["derive"] }
image = "*"
log = "*"
pretty_env_logger = "*"
serde_json = "*"
