[package]
name = "rust_reduce"
version = "0.1.0"
edition = "2021"
publish = false

[dependencies]
clap = "=2.34.0"
proc-macro2 = { version = "=1.0.107", features = ["span-locations"] }
quote = "=1.0.47"
syn = { version = "=1.0.109", features = ["full"] }
syn-inline-mod = "=0.5.0"
tempfile = "=3.27.0"
