[package]
name = "qpatcher"
version = "0.1.0"
edition = "2021"
publish = false

[dependencies]
clap = { version = "4", features = ["cargo"] }
nix = { version = "*", features = ["user", "fs"] }
owo-colors = "*"
supports-color = "*"
ureq = "2"
