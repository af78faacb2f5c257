[package]
name = "memory_tracker"
version = "0.1.0"
edition = "2021"
publish = false

[dependencies]
rand = "0.8"
backtrace = "0.3"
borsh = { version = "1", features = ["derive"] }
