[package]
name = "halgen"
version = "0.1.0"
edition = "2021"
publish = false

[dependencies]
convert_case = "=0.12.0"
anyhow = "=1.0.104"
clap = { version = "=4.6.7", features = ["derive"] }
glob = "=0.3.4"
clang = { version = "=2.1.0", features = ["runtime", "clang_10_0"] }
