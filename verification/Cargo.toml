[package]
name = "cram"
version = "0.1.0"
edition = "2021"
publish = false

[dependencies]
brotli = "*"
bzip2 = "*"
clap = { version = "4", features = ["derive"] }
flate2 = "1"
xz2 = "0.1"
zstd = "0.13"
