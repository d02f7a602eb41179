[package]
name = "cross_domain"
version = "0.1.0"
edition = "2021"
publish = false

[dependencies]
log = "0.4"
magma-gpu = "*"
mesa3d_util = "*"
zerocopy = { version = "0.8", features = ["derive"] }
