[package]
name = "rustwell"
version = "0.1.0"
edition = "2021"
publish = false

[dependencies]
clap = { version = "4", features = ["derive"] }
color-eyre = "0.6"
typst = "0.13"
typst-pdf = "0.13"
