[package]
name = "ndate"
version = "0.1.0"
edition = "2021"
publish = false

[dependencies]
chinese-lunisolar-calendar = "*"
regex = "*"
clap = { version = "*", features = ["derive"] }
