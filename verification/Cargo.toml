[package]
name = "funky"
version = "0.1.0"
edition = "2021"
publish = false

[dependencies]
byteorder = "1"
docopt = "1"
serde = { version = "1", features = ["derive"] }
env_logger = "0.10"
log = "0.4"
regex = "1"
