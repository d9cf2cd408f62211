[package]
name = "port_kill"
version = "0.1.0"
edition = "2021"
publish = false

[dependencies]
nix = { version = "*", features = ["signal"] }
clap = { version = "*", features = ["derive"] }
crossbeam-channel = "*"
