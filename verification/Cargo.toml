[package]
name = "xdp"
version = "0.1.0"
edition = "2021"
publish = false

[dependencies]
clap = { version = "4", features = ["derive"] }
futures = "0.3"
libbpf-rs = "0.23"
libc = "0.2"
prometheus = "0.13"
tokio = { version = "1", features = ["full"] }
warp = "0.3"
