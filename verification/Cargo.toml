[package]
name = "jog_views"
version = "0.1.0"
edition = "2021"
publish = false

[dependencies]
chrono = "0.4"
dirs = "6"
ratatui = { version = "0.29", default-features = false }
unicode-width = "0.2"
