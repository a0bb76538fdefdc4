[package]
name = "cardsynth"
version = "0.1.0"
edition = "2021"
publish = false

[dependencies]
nannou = "0.19"
nannou_audio = "0.19"
