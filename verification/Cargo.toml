[package]
name = "build_server"
version = "0.1.0"
edition = "2021"
publish = false

[dependencies]
spacetimedb = "=1.12.0"
log = "=0.4.34"
