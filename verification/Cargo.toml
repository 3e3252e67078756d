[package]
name = "psp_packer"
version = "0.1.0"
edition = "2021"
publish = false

[dependencies]
clap = { version = "=4.6.7", features = ["cargo"] }
flate2 = "=1.1.10"
rand = "=0.9.5"
rapidhash = { version = "=1.4.0", features = ["rng"] }
