[package]
name = "anki_rewind"
version = "0.1.0"
edition = "2021"
publish = false

[dependencies]
chrono = "*"
unicase = "*"
rusqlite = { version = "*", features = ["bundled"] }
clap = "*"
shellexpand = "*"
