[package]
name = "pyreqs"
version = "0.1.0"
edition = "2021"
publish = false

[dependencies]
clap = "4"
rayon = "1"
regex = "1"
reqwest = { version = "0.12", features = ["blocking", "json"] }
serde_json = "1"
walkdir = "2"
