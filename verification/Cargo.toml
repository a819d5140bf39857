[package]
name = "systemfd"
version = "0.1.0"
edition = "2021"
publish = false

[dependencies]
nix = "0.26"
uuid = { version = "1", features = ["v4"] }
clap = "4"
console = "0.15"
