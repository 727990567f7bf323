[package]
name = "lemma_mark"
version = "0.1.0"
edition = "2021"
publish = false

[dependencies]
nlprule = { version = "0.6", default-features = false, features = ["regex-fancy"] }
rand = "0.9"
unicode-width = "0.2"
clap = { version = "4", features = ["derive"] }
crossterm = "0.28"
env_logger = "0.11"
log = "0.4"
serde = { version = "1", features = ["derive"] }
serde_json = "1"
