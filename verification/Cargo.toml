[package]
name = "monmon"
version = "0.1.0"
edition = "2021"
publish = false

[dependencies]
atomic-wait = "=1.1.0"
bincode = { version = "=2.0.1", features = ["derive"] }
colored = "=3.1.1"
happylock = "=0.5.2"
rand = "=0.9.5"
num-traits = "=0.2.19"
syn = { version = "=2.0.119", features = ["full"] }
quote = "=1.0.47"
