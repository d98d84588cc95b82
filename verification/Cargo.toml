[package]
name = "unreal_rust_compile"
version = "0.1.0"
edition = "2021"
publish = false

[dependencies]
anyhow = "1"
cargo = "0.60"
cbindgen = "0.24"
clap = "2.34"
itertools = "0.10"
rand = "0.8"
