[package]
name = "drumkit"
version = "0.1.0"
edition = "2021"
publish = false

[dependencies]
rtrb = "*"
arc-swap = "*"
anyhow = "*"
clap = { version = "*", features = ["derive"] }
cpal = "*"
crossterm = "*"
libc = "*"
midir = "*"
notify = "*"
serde = { version = "*", features = ["derive"] }
serde_json = "*"
symphonia = "*"
toml = "*"
ureq = "*"
