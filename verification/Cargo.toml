[package]
name = "statusbar"
version = "0.1.0"
edition = "2021"
publish = false

[dependencies]
anyhow = "1"
chrono = "0.4"
tokio = { version = "1", features = ["rt", "macros", "signal", "sync", "time", "fs", "io-util", "process"] }
x11rb = "0.13"
nix = { version = "0.29", features = ["fs", "signal"] }
mpris = "2"
alsa = "0.9"
battery = "0.7"
