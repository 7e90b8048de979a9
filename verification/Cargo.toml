[package]
name = "photon_core"
version = "0.1.0"
edition = "2021"
publish = false

[dependencies]
rand = "0.9"
reed-solomon-erasure = "6"
clap = { version = "4", features = ["derive"] }
