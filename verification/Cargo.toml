[package]
name = "zavora_xlsx"
version = "0.1.0"
edition = "2021"
publish = false

[dependencies]
quick-xml = "=0.38.4"
atoi_simd = "=0.18.1"
fast-float2 = "*"
