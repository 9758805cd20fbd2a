[package]
name = "interp_bridge"
version = "0.1.0"
edition = "2021"
publish = false

[dependencies]
futures = "0.3"
futures-core = "0.3"
