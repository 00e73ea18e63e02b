[package]
name = "digital_test_to_verilog"
version = "0.1.0"
edition = "2021"
publish = false

[dependencies]
clap = { version = "*", features = ["derive"] }
digital_test_runner = "*"
miette = "*"
