[package]
name = "broom"
version = "0.1.0"
edition = "2021"
publish = false

[dependencies]
dialoguer = "0.11"
indicatif = "0.17"
walkdir = "2"
