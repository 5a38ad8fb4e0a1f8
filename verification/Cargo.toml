[package]
name = "gist_cache"
version = "0.1.0"
edition = "2021"
publish = false

[dependencies]
chrono = "*"
regex = "*"
tokei = "*"
serde = { version = "*", features = ["derive"] }
serde_json = "*"
toml = "*"
dirs = "*"
clap = { version = "*", features = ["derive"] }
clap_complete = "*"
colored = "*"
dialoguer = "*"
