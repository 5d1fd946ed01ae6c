[package]
name = "cargo_hack"
version = "0.1.0"
edition = "2021"
publish = false
