[package]
name = "jma_rap"
version = "0.1.0"
edition = "2021"
publish = false

[dependencies]
thiserror = "1"
time = { version = "0.3", features = ["formatting", "macros"] }
