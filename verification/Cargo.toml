[package]
name = "udp_stress"
version = "0.1.0"
edition = "2021"
publish = false

[dependencies]
num = "*"
clap = { version = "*", features = ["derive"] }
tokio = { version = "*", features = ["full"] }
futures = "*"
