[package]
name = "calculator"
version = "0.1.0"
edition = "2021"
publish = false

[dependencies]
colored = "=3.1.1"
rustc_apfloat = "=0.2.3"
