[package]
name = "romoto"
version = "0.1.0"
edition = "2021"
publish = false

[dependencies]
anyhow = "1"
async-trait = "0.1"
crossterm = "0.28"
portable-pty = "0.8"
rand = "0.8"
ratatui = "0.29"
russh = "0.46"
tokio = { version = "1", features = ["full"] }
