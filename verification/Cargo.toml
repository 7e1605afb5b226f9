[package]
name = "cargo_contract"
version = "0.1.0"
edition = "2021"
publish = false

[dependencies]
hex = "*"
sp-core = "*"
anyhow = "*"
serde = { version = "*", features = ["derive"] }
serde_json = "*"
url = "*"
structopt = "*"
colored = "*"
log = "*"
env_logger = "*"
