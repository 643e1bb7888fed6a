[package]
name = "cargo-info"
version = "0.1.0"
edition = "2021"
publish = false

[dependencies]
chrono = "0.4"
chrono-humanize = "0.2"
json = "0.12"
clap = { version = "4", features = ["derive"] }
color-eyre = "0.6"
ureq = "2"
