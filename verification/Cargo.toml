[package]
name = "yul_compiler"
version = "0.1.0"
edition = "2021"
publish = false

[dependencies]
anyhow = "=1.0.104"
inkwell = { version = "=0.2.0", default-features = false, features = ["llvm14-0-no-llvm-linking"] }
zkevm-assembly = "=0.132.0"
