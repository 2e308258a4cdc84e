[package]
name = "blackjack_strategy"
version = "0.1.0"
edition = "2021"
publish = false

[dependencies]
uuid = { version = "*", features = ["v4"] }
ratatui = "*"
color-eyre = "*"
