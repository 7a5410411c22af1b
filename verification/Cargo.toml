[package]
name = "audiofx"
version = "0.1.0"
edition = "2021"
publish = false

[dependencies]
clap = { version = "4", features = ["derive"] }
gtk4 = "0.6"
hound = "3.5"
