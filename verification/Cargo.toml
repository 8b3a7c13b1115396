[package]
name = "heat_vm"
version = "0.1.0"
edition = "2021"
publish = false

[dependencies]
uuid = { version = "*", features = ["v4"] }
clap = { version = "*", features = ["derive"] }
tar = "*"
