[package]
name = "trellis_sounds"
version = "0.1.0"
edition = "2021"
publish = false

[dependencies]
clap = "2"
dirs = "5"
failure = "0.1"
reqwest = { version = "0.11", default-features = false, features = ["blocking"] }
rodio = "0.17"
zip = { version = "0.6", default-features = false, features = ["deflate"] }
