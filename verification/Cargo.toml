[package]
name = "grove"
version = "0.1.0"
edition = "2021"
publish = false

[dependencies]
tokio = { version = "=1.54.1", features = ["sync", "rt", "time"] }
smol = "=2.0.2"
futures-lite = "=2.6.1"
syn = { version = "2", features = ["full"] }
quote = "1"
proc-macro2 = "1"
