[package]
name = "noirc_evaluator"
version = "0.1.0"
edition = "2021"
publish = false

[dependencies]
acvm = "0.14"
clap = { version = "4", features = ["derive"] }
nameof = "1"
tracing = "0.1"
