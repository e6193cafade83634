[package]
name = "oosc"
version = "0.1.0"
edition = "2021"
publish = false

[dependencies]
anyhow = "1"
cgmath = "0.18"
crossterm = "0.27"
hound = "3.5"
midly = "0.5"
ratatui = "0.25"
rayon = "1"
