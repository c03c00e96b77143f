[package]
name = "powersoftau_core"
version = "0.1.0"
edition = "2021"
publish = false

[dependencies]
bellman_ce = "0.3"
pairing_ce = "*"
blake2 = "0.10"
rand = "0.4"
memmap = "0.7"
config = { version = "0.14", default-features = false, features = ["toml"] }
serde = { version = "1", features = ["derive"] }
crossterm = "0.27"
ratatui = "0.26"
