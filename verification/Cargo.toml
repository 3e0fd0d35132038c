[package]
name = "wavnote"
version = "0.1.0"
edition = "2021"
publish = false

[dependencies]
anyhow = "1"
crossterm = "0.28"
hound = "3.5"
lofty = "0.21"
ratatui = "0.28"
rodio = "0.19"
walkdir = "2"
