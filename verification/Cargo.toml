[package]
name = "untree"
version = "0.9.0"
edition = "2021"
publish = false

[dependencies]
clap = { version = "3", features = ["derive"] }
colored = "2"
textwrap = { version = "0.15", features = ["terminal_size"] }
