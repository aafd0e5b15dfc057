[package]
name = "change_report"
version = "0.1.0"
edition = "2021"
publish = false

[dependencies]
chrono = "0.4"
clap = { version = "3", features = ["derive"] }
csv = "1"
regex = "1"
thiserror = "1"
