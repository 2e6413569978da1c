[package]
name = "fast_fec_rust"
version = "0.1.0"
edition = "2021"
publish = false

[dependencies]
anyhow = "1"
atty = "0.2"
clap = "4"
csv = "1"
regex = "1"
thiserror = "1"
