[package]
name = "modsynth"
version = "0.1.0"
edition = "2021"
publish = false

[dependencies]
cpal = "0.8"
midir = "0.5"
sfml = "0.14"
