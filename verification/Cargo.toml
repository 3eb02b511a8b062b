[package]
name = "window_rules"
version = "0.1.0"
edition = "2021"
publish = false

[dependencies]
regex = "1"
clap = { version = "4", features = ["derive"] }
knuffel = "3"
miette = "5"
niri-ipc = "*"
