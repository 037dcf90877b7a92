[package]
name = "tspace_menu"
version = "0.1.0"
edition = "2021"
publish = false

[dependencies]
fuzzy-matcher = "0.3"
ratatui = "*"
unicode-width = "0.2"
zellij-tile = "*"
