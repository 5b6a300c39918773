[package]
name = "typst_bridge"
version = "0.1.0"
edition = "2021"
publish = false

[dependencies]
typst = "=0.13.1"
typst-assets = { version = "=0.13.1", features = ["fonts"] }
typst-render = "=0.13.1"
