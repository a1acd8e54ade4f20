[package]
name = "sidle"
version = "0.1.0"
edition = "2021"
publish = false

[dependencies]
clap = "2.33"
termion = "1.5"
