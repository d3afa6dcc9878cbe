[package]
name = "ghci"
version = "0.1.0"
edition = "2021"
publish = false

[dependencies]
nix = { version = "0.26", default-features = false, features = ["poll"] }
nonblock = "*"
thiserror = "1"
