[package]
name = "comp_math"
version = "0.1.0"
edition = "2021"
publish = false

[dependencies]
prettytable-rs = "0.10"
rand = "0.8"
