[package]
name = "kenjutu"
version = "0.1.0"
edition = "2021"
publish = false

[dependencies]
similar = "=2.7.0"
serde_json = "=1.0.154"
sha1 = "=0.10.7"
ratatui = "=0.29.0"
two-face = { version = "*", default-features = false, features = ["syntect-default-fancy"] }
git2 = { version = "*", default-features = false }
dirs = "*"
