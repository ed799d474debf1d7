[package]
name = "ucinfo"
version = "0.1.0"
edition = "2021"
publish = false

[dependencies]
anyhow = "=1.0.104"
bincode = "=2.0.1"
clap = { version = "=4.6.7", features = ["derive"] }
lazy_static = "=1.5.1"
once_cell = "=1.21.4"
quick-xml = "=0.42.0"
regex = "=1.13.1"
