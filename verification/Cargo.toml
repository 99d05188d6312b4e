[package]
name = "rix"
version = "0.1.0"
edition = "2021"
publish = false

[dependencies]
rnix = "0.11"
rowan = "0.15"
regex = "1"
serde = { version = "1", features = ["derive"] }
serde_json = "1"
clap = { version = "4", features = ["derive"] }
crossterm = "0.28"
ratatui = "0.28"
indicatif = "0.17"
git2 = { version = "0.19", default-features = false }
reqwest = { version = "0.12", default-features = false, features = ["blocking", "json", "rustls-tls"] }
rusqlite = { version = "0.32", features = ["bundled"] }
brotli = "*"
libc = "0.2"
