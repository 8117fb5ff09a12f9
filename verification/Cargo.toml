[package]
name = "exprlang"
version = "0.1.0"
edition = "2021"
publish = false

[dependencies]
clap = { version = "4", features = ["derive"] }
inkwell = { version = "0.5", features = ["llvm18-0"] }
