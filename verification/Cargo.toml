[package]
name = "filebrowser"
version = "0.1.0"
edition = "2021"
publish = false

[dependencies]
termion = "1.5"
tui = "0.8"
