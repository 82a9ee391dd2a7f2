[package]
name = "xcm"
version = "0.1.0"
edition = "2021"
publish = false

[dependencies]
parity-scale-codec = { version = "*", features = ["derive"] }
scale-info = { version = "*", features = ["derive"] }
sp-arithmetic = "*"
sp-runtime = "*"
sp-core = "*"
sp-std = "*"
frame-support = "*"
smallvec = "*"
derivative = "*"
impl-trait-for-tuples = "*"
