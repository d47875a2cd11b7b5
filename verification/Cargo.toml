[package]
name = "mdui"
version = "0.1.0"
edition = "2021"
publish = false

[dependencies]
clap = { version = "4", features = ["derive"] }
crossterm = "0.28"
pulldown-cmark = "0.13"
terminal_size = "0.4"
textwrap = "0.16"
unicode-width = "0.2"
