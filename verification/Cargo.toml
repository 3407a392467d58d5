[package]
name = "create2gpu"
version = "0.1.0"
edition = "2021"
publish = false

[dependencies]
clap = { version = "4", features = ["derive"] }
console = "*"
hex = "0.4"
ocl = "*"
rand = "0.8"
separator = "*"
terminal_size = "*"
tiny-keccak = "1.5"
