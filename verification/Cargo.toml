[package]
name = "squo"
version = "0.1.0"
edition = "2021"
publish = false

[dependencies]
nix = { version = "*", features = ["fs", "feature"] }
num_cpus = "*"
actix-web = "*"
