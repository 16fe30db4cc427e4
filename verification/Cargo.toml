[package]
name = "whippyalgebra"
version = "0.1.0"
edition = "2021"
publish = false

[dependencies]
nalgebra = "=0.35.0"
whippyunits = "=0.3.1"
whippyunits-core = "=0.3.1"
typenum = "=1.20.1"
num-traits = "=0.2.19"
proc-macro2 = "=1.0.107"
quote = "=1.0.47"
syn = { version = "=2.0.119", features = ["full"] }
