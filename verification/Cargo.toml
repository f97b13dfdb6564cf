[package]
name = "rustboss"
version = "0.1.0"
edition = "2021"
publish = false

[dependencies]
tokio = { version = "=1.53.2", features = ["macros", "rt-multi-thread", "time", "sync"] }
crossterm = "=0.29.0"
signal-hook = "=0.3.18"
