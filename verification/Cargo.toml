[package]
name = "cc_loadout"
version = "0.1.0"
edition = "2021"
publish = false

[dependencies]
anyhow = "1"
fs2 = "0.4"
ratatui = "0.29"
serde_json = { version = "1", features = ["preserve_order"] }
tempfile = "3"
time = { version = "0.3", features = ["local-offset"] }
