[package]
name = "badger_cst"
version = "0.1.0"
edition = "2021"
publish = false

[dependencies]
rowan = "0.15"
clap = { version = "4", features = ["derive"] }
