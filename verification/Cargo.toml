[package]
name = "ascompiler"
version = "0.1.0"
edition = "2021"
publish = false

[dependencies]
inkwell = { version = "*", features = ["llvm20-1"] }
