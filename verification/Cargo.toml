[package]
name = "piston_meta"
version = "0.1.0"
edition = "2021"
publish = false

[dependencies]
read_token = "=0.5.0"
