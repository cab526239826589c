[package]
name = "minizinc_diff"
version = "0.1.0"
edition = "2021"
publish = false

[dependencies]
shell-words = "*"
rand = { version = "*", features = ["small_rng"] }
clap = { version = "*", features = ["derive"] }
