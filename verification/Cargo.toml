[package]
name = "workmux"
version = "0.1.0"
edition = "2021"
publish = false

[dependencies]
anyhow = "*"
clap = { version = "*", features = ["derive"] }
console = "*"
git-url-parse = "*"
home = "*"
pathdiff = "*"
serde = { version = "*", features = ["derive"] }
serde_json = "*"
tabled = "*"
