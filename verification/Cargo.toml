[package]
name = "sugar_diff"
version = "0.1.0"
edition = "2021"
publish = false

[dependencies]
color-eyre = "0.6"
crossterm = "0.25"
human-duration = "*"
tui = "0.19"
