[package]
name = "pebbles"
version = "0.1.0"
edition = "2021"
publish = false

[dependencies]
inkwell = { version = "=0.6.0", features = ["llvm14-0-force-dynamic"] }
clap = { version = "=4.6.7", features = ["derive"] }
