[package]
name = "bazelfe_core"
version = "0.1.0"
edition = "2021"
publish = false

[dependencies]
regex = "1"
tokio = { version = "1", features = ["rt-multi-thread", "process", "macros", "sync", "time"] }
flume = "*"
async-channel = "*"
async-trait = "*"
