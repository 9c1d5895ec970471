[package]
name = "raff"
version = "0.1.0"
edition = "2021"

[dependencies]
flood-rs = "*"
