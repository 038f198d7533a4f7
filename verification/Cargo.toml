[package]
name = "judge_core"
version = "0.1.0"
edition = "2021"
publish = false

[dependencies]
nix = { version = "*", features = ["event", "fs", "process", "resource", "poll"] }
libc = "*"
