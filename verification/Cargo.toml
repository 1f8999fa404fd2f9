[package]
name = "gxdl_rs"
version = "0.1.0"
edition = "2021"
publish = false

[dependencies]
clap = { version = "=4.6.7", features = ["derive"] }
serial2 = { version = "=0.2.39", features = ["unix"] }
libc = "=0.2.191"
