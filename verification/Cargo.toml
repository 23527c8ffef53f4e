[package]
name = "clarity_repl"
version = "0.1.0"
edition = "2021"
publish = false

[dependencies]
ansi_term = "=0.12.1"
prettytable-rs = { version = "=0.10.0", default-features = false }
serde_json = "=1.0.154"
