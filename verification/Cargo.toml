[package]
name = "colorrs"
version = "0.1.0"
edition = "2021"
publish = false

[dependencies]
clap = { version = "4", features = ["cargo"] }
clap_complete = "4"
enable-ansi-support = "*"
git2 = "*"
rand = "0.9"
serde = { version = "1", features = ["derive"] }
tempfile = "3"
toml = "*"
wild = "*"
