[package]
name = "quantized_var_builder"
version = "0.1.0"
edition = "2021"
publish = false

[dependencies]
candle-core = "*"
