[package]
name = "sc2_replay_fixer"
version = "0.1.0"
edition = "2021"
publish = false

[dependencies]
anyhow = "*"
crossbeam-channel = "*"
dirs = "*"
walkdir = "*"
