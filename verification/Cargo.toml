[package]
name = "ichika"
version = "0.1.0"
edition = "2021"
publish = false

[dependencies]
syn = { version = "2", features = ["full", "parsing", "printing"] }
proc-macro2 = "1"
quote = "1"
anyhow = "1"
flume = "0.11"
tokio = { version = "1", features = ["rt", "rt-multi-thread"] }
async-std = "1"
