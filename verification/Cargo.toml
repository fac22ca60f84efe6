[package]
name = "tcmalloc_better"
version = "0.1.0"
edition = "2021"
publish = false

[dependencies]
patch = "*"
anyhow = "*"
clap = { version = "*", features = ["derive"] }
libc = "*"
strum = { version = "*", features = ["derive"] }
cc = "*"
