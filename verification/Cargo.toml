[package]
name = "occurances"
version = "0.1.0"
edition = "2021"
publish = false

[dependencies]
uuid = { version = "*", features = ["v7"] }
chrono = "*"
ordermap = "*"
serde = { version = "*", features = ["derive"] }
clap = "*"
color-eyre = "*"
ratatui = "*"
