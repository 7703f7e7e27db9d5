[package]
name = "sitegen"
version = "0.1.0"
edition = "2021"
publish = false

[dependencies]
anyhow = "*"
chrono = "*"
clap = { version = "*", features = ["derive"] }
convert_case = "*"
env_logger = "*"
handlebars = "*"
log = "*"
pulldown-cmark = "*"
serde_json = "*"
