[package]
name = "donut"
version = "0.1.0"
edition = "2021"
publish = false

[dependencies]
crossterm = "0.19"
