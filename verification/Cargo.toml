[package]
name = "git-clean"
version = "0.1.0"
edition = "2021"
publish = false

[dependencies]
clap = "4"
