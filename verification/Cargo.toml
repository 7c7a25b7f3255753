[package]
name = "music21_rs"
version = "0.1.0"
edition = "2021"
publish = false

[dependencies]
fraction = "*"
itertools = "*"
num = "*"
num-traits = "*"
regex = "*"
serde = { version = "*", features = ["derive"] }
