[package]
name = "lamparray"
version = "0.1.0"
edition = "2021"
publish = false

[dependencies]
hidparser = "1"
libc = "0.2"
anyhow = "1"
clap = { version = "4", features = ["derive"] }
ratatui = "0.29"
