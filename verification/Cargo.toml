[package]
name = "novarum"
version = "0.1.0"
edition = "2021"
publish = false

[dependencies]
dialoguer = { version = "=0.12.0", features = ["fuzzy-select"] }
glob = "=0.3.4"
platform-dirs = "=0.3.0"
run_shell = "=0.1.13"
