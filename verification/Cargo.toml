[package]
name = "wgsl_dump"
version = "0.1.0"
edition = "2021"
publish = false

[dependencies]
clap = { version = "=4.6.7", features = ["derive"] }
clio = { version = "=0.3.5", features = ["clap-parse"] }
naga = { version = "=30.0.1", features = ["wgsl-in"] }
