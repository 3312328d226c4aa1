[package]
name = "padcheck"
version = "0.1.0"
edition = "2021"
publish = false

[dependencies]
ansi_term = "*"
bindgen = { version = "*", default-features = false, features = ["runtime"] }
clap = "*"
syn = { version = "*", features = ["full"] }
