[package]
name = "rustc-internal-docs"
version = "0.1.0"
edition = "2021"
publish = false

[dependencies]
shlex = "1"
regex = "1"
log = "0.4"
env_logger = "0.11"
clap = "4"
toml = "0.8"
serde = { version = "1", features = ["derive"] }
chrono = "0.4"
copy_dir = "0.1"
tempdir = "0.3"
