[package]
name = "yaliir"
version = "0.1.0"
edition = "2021"
publish = false

[dependencies]
anyhow = "1"
exitcode = "1"
thiserror = "1"
